use mqttrust::collections::UnsubAckCodes;
use mqttrust::encoding::decoder::{MqttDecode, MqttDecoder};
use mqttrust::encoding::encoder::{MqttEncode, MqttEncoder};
use mqttrust::encoding::packets::{
    ConnAck, Connect, DeferredPayload, Disconnect, PingResp, Protocol, PubAck, PubComp, PubRec,
    Publish, RetainHandling, Subscribe, SubscribeTopic, UnsubAck,
};
use mqttrust::encoding::properties::{Properties, Property};
use mqttrust::encoding::received_packet::ReceivedPacket;
use mqttrust::encoding::v3;
use mqttrust::encoding::{
    ConnAckReasonCode, Pid, PubAckReasonCode, PubCompReasonCode, PubRecReasonCode, QoS, QosPid,
    UnsubAckReasonCode,
};

/// Encodes a packet, decodes it and compares the two.
fn roundtrip<'a, T: MqttEncode + MqttDecode<'a> + core::fmt::Debug + PartialEq>(
    encoder: &'a mut MqttEncoder,
    packet: T,
) {
    packet.to_buffer(encoder).unwrap();
    let encoded = encoder.packet_bytes();
    let mut decoder = MqttDecoder::try_new(encoded).unwrap();
    let decoded_packet = T::from_decoder(&mut decoder).unwrap();
    assert_eq!(packet, decoded_packet);
}

#[test]
fn test_connack_encode_decode_v311() {
    let connack = v3::ConnAck {
        session_present: true,
        reason_code: v3::ConnAckReasonCode::ConnectionAccepted,
    };

    let mut buf = [0u8; 512];
    let mut encoder = MqttEncoder::new(&mut buf);

    roundtrip(&mut encoder, connack);
}

#[test]
fn test_connack_encode_decode_v5() {
    let properties = Properties::Slice(&[Property::SessionExpiryInterval(100)]);

    let connack = ConnAck {
        session_present: false,
        reason_code: ConnAckReasonCode::Success,
        properties,
    };

    let mut buf = [0u8; 512];
    let mut encoder = MqttEncoder::new(&mut buf);

    roundtrip(&mut encoder, connack);
}

#[test]
fn encode_connect_v5() {
    let expected_bytes = &[
        16, 17, 0, 4, 77, 81, 84, 84, 5, 2, 0, 60, 0, 0, 4, 84, 69, 83, 84,
    ];

    let connect = Connect {
        protocol: Protocol::MQTT5,
        properties: Properties::Slice(&[]),
        keep_alive: 60,
        client_id: "TEST",
        username: None,
        password: None,
        last_will: None,
        clean_start: true,
    };

    let mut buf = [0u8; 32];
    let mut encoder = MqttEncoder::new(&mut buf);
    connect.to_buffer(&mut encoder).unwrap();

    assert_eq!(encoder.packet_bytes(), expected_bytes);
}

#[test]
fn test_disconnect_encode_decode_v311() {
    let disconnect = v3::Disconnect::new();

    let mut buf = [0u8; 512];
    let mut encoder = MqttEncoder::new(&mut buf);

    roundtrip(&mut encoder, disconnect);
}

#[test]
fn test_disconnect_encode_decode_v5() {
    let properties = Properties::Slice(&[Property::SessionExpiryInterval(100)]);
    let disconnect = Disconnect::builder().properties(properties).build();

    let mut buf = [0u8; 512];
    let mut encoder = MqttEncoder::new(&mut buf);

    roundtrip(&mut encoder, disconnect);
}

#[test]
fn test_puback_encode_decode_v311() {
    let puback = v3::PubAck {
        pid: Pid::try_from(1234).unwrap(),
    };

    let mut buf = [0u8; 512];
    let mut encoder = MqttEncoder::new(&mut buf);

    roundtrip(&mut encoder, puback);
}

#[test]
fn test_puback_encode_decode_v5() {
    let puback = PubAck {
        pid: Pid::try_from(1234).unwrap(),
        reason_code: PubAckReasonCode::Success,
        properties: Properties::default(),
    };

    let mut buf = [0u8; 512];
    let mut encoder = MqttEncoder::new(&mut buf);

    roundtrip(&mut encoder, puback);
}

#[test]
fn encode_puback_v311() {
    let expected_bytes = &[0x40, 0x02, 0x00, 0x0C];

    let puback = v3::PubAck {
        pid: Pid::try_from(12).unwrap(),
    };

    let mut buf = [0u8; 32];
    let mut encoder = MqttEncoder::new(&mut buf);
    puback.to_buffer(&mut encoder).unwrap();

    assert_eq!(encoder.packet_bytes(), expected_bytes);
}

#[test]
fn encode_puback_v5() {
    let expected_bytes = &[0x40, 0x02, 0x00, 0x0C];

    let puback = PubAck {
        pid: Pid::try_from(12).unwrap(),
        reason_code: PubAckReasonCode::Success,
        properties: Properties::Slice(&[]),
    };

    let mut buf = [0u8; 32];
    let mut encoder = MqttEncoder::new(&mut buf);
    puback.to_buffer(&mut encoder).unwrap();

    assert_eq!(encoder.packet_bytes(), expected_bytes);
}

#[test]
fn test_pubcomp_encode_decode_v311() {
    let pubcomp = v3::PubComp {
        pid: Pid::try_from(1234).unwrap(),
    };

    let mut buf = [0u8; 512];
    let mut encoder = MqttEncoder::new(&mut buf);

    roundtrip(&mut encoder, pubcomp);
}

#[test]
fn test_pubcomp_encode_decode_v5() {
    let pubcomp = PubComp {
        pid: Pid::try_from(1234).unwrap(),
        reason_code: PubCompReasonCode::Success,
        properties: Properties::default(),
    };

    let mut buf = [0u8; 512];
    let mut encoder = MqttEncoder::new(&mut buf);

    roundtrip(&mut encoder, pubcomp);
}

#[test]
fn encode_publish_bytes_v5() {
    let expected_bytes = &[
        50, 57, 0, 21, 109, 121, 47, 112, 101, 114, 115, 111, 110, 97, 108, 105, 122, 101, 100, 47,
        116, 111, 112, 105, 99, 0, 1, 0, 84, 104, 105, 115, 32, 105, 115, 32, 109, 121, 32, 97,
        119, 101, 115, 111, 109, 101, 32, 98, 121, 116, 101, 32, 112, 97, 121, 108, 111, 97, 100,
    ];

    let publish = Publish {
        dup: false,
        qos: QoS::AtLeastOnce,
        retain: false,
        pid: Some(Pid::new()),
        topic_name: "my/personalized/topic",
        payload: b"This is my awesome byte payload",
        properties: Properties::Slice(&[]),
    };

    let mut buf = [0u8; 128];
    let mut encoder = MqttEncoder::new(&mut buf);
    publish.to_buffer(&mut encoder).unwrap();

    assert_eq!(publish.max_packet_size(), 62);
    assert_eq!(encoder.packet_bytes(), expected_bytes);
}

#[test]
fn encode_publish_closure_v5() {
    let expected_bytes = &[
        50, 57, 0, 21, 109, 121, 47, 112, 101, 114, 115, 111, 110, 97, 108, 105, 122, 101, 100, 47,
        116, 111, 112, 105, 99, 0, 1, 0, 84, 104, 105, 115, 32, 105, 115, 32, 109, 121, 32, 97,
        119, 101, 115, 111, 109, 101, 32, 98, 121, 116, 101, 32, 112, 97, 121, 108, 111, 97, 100,
    ];

    let payload_bytes = b"This is my awesome byte payload";

    let payload_closure = |buf: &mut [u8]| {
        buf[..payload_bytes.len()].copy_from_slice(payload_bytes);
        Ok(payload_bytes.len())
    };

    let publish = Publish {
        dup: false,
        qos: QoS::AtLeastOnce,
        retain: false,
        pid: Some(Pid::new()),
        topic_name: "my/personalized/topic",
        payload: DeferredPayload::new(payload_closure, payload_bytes.len()),
        properties: Properties::Slice(&[]),
    };

    let mut buf = [0u8; 128];
    let mut encoder = MqttEncoder::new(&mut buf);
    publish.to_buffer(&mut encoder).unwrap();

    assert_eq!(publish.max_packet_size(), 62);
    assert_eq!(encoder.packet_bytes(), expected_bytes);
}

#[test]
fn test_publish_v5_encode_decode_received_packet() {
    let props = &[
        Property::PayloadFormatIndicator(0),
        Property::MessageExpiryInterval(1000),
        Property::ContentType("text/plain"),
        Property::ResponseTopic("response/topic"),
        Property::CorrelationData(b"correlation_data"),
        Property::UserProperty("key1", "value1"),
        Property::UserProperty("key2", "value2"),
    ];
    let publish_v5 = Publish {
        dup: false,
        qos: QoS::AtLeastOnce,
        retain: false,
        pid: Some(Pid::new()),
        topic_name: "test/topic",
        payload: b"Hello, world!",
        properties: Properties::Slice(props),
    };

    let mut buf = [0u8; 128];
    let mut encoder = MqttEncoder::new(&mut buf);
    publish_v5.to_buffer(&mut encoder).unwrap();

    let packet = ReceivedPacket::from_buffer(encoder.packet_bytes()).unwrap();

    if let ReceivedPacket::PartialPublish {
        qos_pid,
        topic_name,
        publish,
    } = packet
    {
        let publish = publish.as_publish().unwrap();
        assert_eq!(publish.qos, QoS::AtLeastOnce);
        assert_eq!(publish.dup, false);
        assert_eq!(publish.retain, false);
        assert_eq!(qos_pid, QosPid::AtLeastOnce(Pid::new()));
        assert_eq!(topic_name, "test/topic");
        assert_eq!(publish.payload, b"Hello, world!");

        let mut properties = publish.properties.iter();
        assert_eq!(
            properties.next().unwrap().unwrap().property_id(),
            Property::PayloadFormatIndicator(0).property_id()
        );
        assert_eq!(
            properties.next().unwrap().unwrap().property_id(),
            Property::MessageExpiryInterval(1000).property_id()
        );
        assert_eq!(
            properties.next().unwrap().unwrap().property_id(),
            Property::ContentType("text/plain").property_id()
        );
        assert_eq!(
            properties.next().unwrap().unwrap().property_id(),
            Property::ResponseTopic("response/topic").property_id()
        );
        assert_eq!(
            properties.next().unwrap().unwrap().property_id(),
            Property::CorrelationData(b"correlation_data").property_id()
        );
        assert_eq!(
            properties.next().unwrap().unwrap().property_id(),
            Property::UserProperty("key1", "value1").property_id()
        );
        assert_eq!(
            properties.next().unwrap().unwrap().property_id(),
            Property::UserProperty("key2", "value2").property_id()
        );
        assert!(properties.next().is_none());
    } else {
        panic!("Expected Publish packet");
    }
}

#[test]
fn test_puback_v5_encode_decode_received_packet() {
    let mut buf = [0u8; 128];
    let mut encoder = MqttEncoder::new(&mut buf);

    let packet = PubAck {
        pid: Pid::new(),
        reason_code: PubAckReasonCode::Success,
        properties: Properties::Slice(&[Property::ResponseTopic("response/topic")]),
    };

    packet.to_buffer(&mut encoder).unwrap();

    let packet = ReceivedPacket::from_buffer(encoder.packet_bytes()).unwrap();

    if let ReceivedPacket::PubAck(PubAck { pid, .. }) = packet {
        assert_eq!(pid, Pid::new());
    } else {
        panic!("Expected PubAck packet");
    }
}

#[test]
fn test_pingresp_encode_decode_received_packet() {
    let mut buf = [0u8; 128];
    let mut encoder = MqttEncoder::new(&mut buf);

    let packet = PingResp;

    packet.to_buffer(&mut encoder).unwrap();

    let packet = ReceivedPacket::from_buffer(encoder.packet_bytes()).unwrap();

    assert!(matches!(packet, ReceivedPacket::PingResp));
}

#[test]
fn test_pubrec_encode_decode_v311() {
    let pubrec = v3::PubRec {
        pid: Pid::try_from(1234).unwrap(),
    };

    let mut buf = [0u8; 512];
    let mut encoder = MqttEncoder::new(&mut buf);

    roundtrip(&mut encoder, pubrec);
}

#[test]
fn test_pubrec_encode_decode_v5() {
    let pubrec = PubRec {
        pid: Pid::try_from(1234).unwrap(),
        reason_code: PubRecReasonCode::Success,
        properties: Properties::default(),
    };

    let mut buf = [0u8; 512];
    let mut encoder = MqttEncoder::new(&mut buf);

    roundtrip(&mut encoder, pubrec);
}

#[test]
fn encode_subscribe_v5() {
    let expected_bytes = [
        0x82, 0x0e, 0x00, 0x01, 0x00, 0x00, 0x08, 0x74, 0x65, 0x73, 0x74, 0x2f, 0x31, 0x32, 0x33,
        0x00,
    ];

    let sub = Subscribe {
        pid: Some(Pid::new()),
        properties: Properties::Slice(&[]),
        topics: &[SubscribeTopic {
            topic_path: "test/123",
            maximum_qos: QoS::AtMostOnce,
            no_local: false,
            retain_as_published: false,
            retain_handling: RetainHandling::SendAtSubscribeTime,
        }],
    };

    let mut buf = [0u8; 128];
    let mut encoder = MqttEncoder::new(&mut buf);
    sub.to_buffer(&mut encoder).unwrap();

    assert_eq!(encoder.packet_bytes(), expected_bytes);
}

#[test]
fn test_unsuback_encode_decode_v311() {
    let unsuback = v3::UnsubAck {
        pid: Pid::try_from(1234).unwrap(),
    };

    let mut buf = [0u8; 512];
    let mut encoder = MqttEncoder::new(&mut buf);

    roundtrip(&mut encoder, unsuback);
}

#[test]
fn test_unsuback_encode_decode_v5() {
    let unsuback = UnsubAck {
        pid: Pid::try_from(1234).unwrap(),
        codes: UnsubAckCodes::from_slice(&[
            UnsubAckReasonCode::Success,
            UnsubAckReasonCode::Success,
        ])
        .unwrap(),
        properties: Properties::default(),
    };

    let mut buf = [0u8; 512];
    let mut encoder = MqttEncoder::new(&mut buf);

    roundtrip(&mut encoder, unsuback);
}

#[test]
fn utils_pid_add_sub() {
    let t: Vec<(u16, u16, u16, u16)> = vec![
        (2, 1, 1, 3),
        (100, 1, 99, 101),
        (1, 1, u16::MAX, 2),
        (1, 2, u16::MAX - 1, 3),
        (1, 3, u16::MAX - 2, 4),
        (u16::MAX, 1, u16::MAX - 1, 1),
        (u16::MAX, 2, u16::MAX - 2, 2),
        (10, u16::MAX, 10, 10),
        (10, 0, 10, 10),
        (1, 0, 1, 1),
        (u16::MAX, 0, u16::MAX, u16::MAX),
    ];
    for (cur, d, prev, next) in t {
        let sub = Pid::try_from(cur).unwrap() - d;
        let add = Pid::try_from(cur).unwrap() + d;
        assert_eq!(prev, sub.get(), "{} - {} should be {}", cur, d, prev);
        assert_eq!(next, add.get(), "{} + {} should be {}", cur, d, next);
    }
}
