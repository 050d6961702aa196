use mqttrust::encoding::encoder::{MqttEncode, MqttEncoder};
use mqttrust::encoding::error::ErrorKind;
use mqttrust::encoding::packets::{PingReq, Publish};
use mqttrust::encoding::properties::{Properties, Property};
use mqttrust::encoding::received_packet::ReceivedPacket;
use mqttrust::encoding::{EncodingError, Pid, QoS, QosPid, StateError};
use mqttrust::message::Message;
use mqttrust::packet::{encode_packet, PacketReader};

/// Lets the reader read from a stream until a packet can be decoded, and
/// returns the number of bytes read.
fn read(reader: &mut PacketReader, stream: &[u8]) -> Result<usize, ErrorKind> {
    let mut pos = 0;
    reader.begin();
    loop {
        assert!(!reader.runs_over());
        let buf = reader.read_buf()?;
        if buf.is_empty() {
            return Ok(pos);
        }
        let n = buf.len().min(stream.len() - pos);
        buf[..n].copy_from_slice(&stream[pos..pos + n]);
        pos += n;
        reader.received(n)?;
    }
}

#[test]
fn packets_are_read_one_after_the_other() {
    let stream = [0x40, 2, 0, 7, 0xd0, 0, 0x50, 2, 0, 8];
    let mut reader = PacketReader::new();
    assert_eq!(read(&mut reader, &stream), Ok(4));
    assert!(reader.is_complete());
    assert!(reader.is_receivable());
    assert!(matches!(reader.decode(), Ok(ReceivedPacket::PubAck(_))));
    assert_eq!(read(&mut reader, &stream[4..]), Ok(2));
    assert!(matches!(reader.decode(), Ok(ReceivedPacket::PingResp)));
    assert_eq!(read(&mut reader, &stream[6..]), Ok(4));
    assert!(matches!(reader.decode(), Ok(ReceivedPacket::PubRec(_))));
}

#[test]
fn a_partial_packet_is_kept() {
    let mut reader = PacketReader::new();
    assert_eq!(
        read(&mut reader, &[0x40, 2, 0]),
        Err(ErrorKind::NotConnected)
    );
    reader.reset();
    assert!(!reader.is_complete());
    assert_eq!(reader.decode().unwrap_err(), StateError::Deserialization);
    assert_eq!(
        reader.try_parse_header(),
        Err(EncodingError::InsufficientBytes)
    );
    assert_eq!(reader.next_read_buf().unwrap().len(), 1);
}

#[test]
fn what_is_no_packet_is_discarded() {
    let mut reader = PacketReader::new();
    assert_eq!(read(&mut reader, &[0, 0, 0]), Err(ErrorKind::InvalidData));
    assert_eq!(read(&mut reader, &[0xd0, 0]), Ok(2));
}

#[test]
fn of_a_long_publication_the_start_is_read() {
    let payload = [9u8; 300];
    let publish = Publish {
        dup: false,
        qos: QoS::AtLeastOnce,
        retain: false,
        pid: Some(Pid::new()),
        topic_name: "some/topic",
        payload: &payload,
        properties: Properties::default(),
    };
    let mut buf = [0u8; 400];
    let bytes = encode_packet(&mut buf, &publish).unwrap();
    let mut reader = PacketReader::new();
    let n = read(&mut reader, bytes).unwrap();
    assert!(n < bytes.len());
    match reader.decode() {
        Ok(ReceivedPacket::PartialPublish { publish, .. }) => {
            assert_eq!(publish.len(), bytes.len());
            let mut copy = [0u8; 400];
            assert_eq!(publish.copy_buffered(&mut copy), n);
            assert_eq!(&copy[..n], &bytes[..n]);
        }
        _ => panic!("Expected Publish packet"),
    }
    assert_eq!(
        encode_packet(&mut [0u8; 4], &PingReq),
        Err(StateError::Deserialization)
    );

    // The packet starts where the buffer does
    let expected = bytes.to_vec();
    assert_eq!(&buf[..expected.len()], expected);
}

#[test]
fn messages_are_views_of_publications() {
    let publish = Publish {
        dup: false,
        qos: QoS::AtLeastOnce,
        retain: true,
        pid: Some(Pid::new()),
        topic_name: "some/topic",
        payload: b"hello",
        properties: Properties::Slice(&[Property::ResponseTopic("back")]),
    };
    let mut buf = [0u8; 64];
    let mut encoder = MqttEncoder::new(&mut buf);
    publish.to_buffer(&mut encoder).unwrap();
    let mut frame = encoder.packet_bytes().to_vec();
    let mut message = Message::try_new(&mut frame).unwrap();
    assert!(!message.dup());
    assert!(message.retain());
    assert_eq!(message.qos_pid(), QosPid::AtLeastOnce(Pid::new()));
    assert_eq!(message.topic_name(), "some/topic");
    assert_eq!(message.properties().iter().response_topic(), Some("back"));
    assert_eq!(message.payload(), b"hello");
    message.payload_mut()[0] = 0x6a;
    assert_eq!(message.payload(), b"jello");
    assert_eq!(message.topic_name(), "some/topic");
}

#[test]
fn frames_that_are_no_messages() {
    assert!(matches!(
        Message::try_new(&mut [0x32, 4, 0, 0, 0, 0]),
        Err(EncodingError::BadIdentifier(0))
    ));
    assert!(matches!(
        Message::try_new(&mut [0x30, 3, 0, 2, 0x61]),
        Err(EncodingError::InsufficientBytes)
    ));
}
