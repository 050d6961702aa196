use mqttrust::encoding::decoder::{MqttDecode, MqttDecoder};
use mqttrust::encoding::encoder::{MqttEncode, MqttEncoder};
use mqttrust::encoding::packet;
use mqttrust::encoding::packets::{
    ConnAck, Connect, DeferredPayload, Disconnect, LastWill, PacketType, PingReq, PingResp,
    Protocol, PubAck, PubComp, PubRec, PubRel, Publish, SubAck, Subscribe, SubscribeTopic,
    UnsubAck, Unsubscribe,
};
use mqttrust::encoding::properties::{Properties, Property, PropertyIdentifier};
use mqttrust::encoding::received_packet::ReceivedPacket;
use mqttrust::encoding::v3;
use mqttrust::encoding::{
    varint_len, ConnAckReasonCode, DisconnectReasonCode, EncodingError, Pid, PubAckReasonCode,
    PubCompReasonCode, PubRecReasonCode, PubRelReasonCode, QoS, QosPid, SubAckReasonCode,
    UnsubAckReasonCode,
};
use mqttrust::error::Error;

fn pid(n: u16) -> Pid {
    Pid::try_from(n).unwrap()
}

fn encode<P: MqttEncode>(packet: &P) -> Vec<u8> {
    let mut buf = [0u8; 512];
    let mut encoder = MqttEncoder::new(&mut buf);
    packet.to_buffer(&mut encoder).unwrap();
    assert!(encoder.packet_bytes().len() <= packet.max_packet_size());
    encoder.packet_bytes().to_vec()
}

fn error<P: MqttEncode>(packet: &P, capacity: usize) -> EncodingError {
    let mut buf = vec![0u8; capacity];
    let mut encoder = MqttEncoder::new(&mut buf);
    packet.to_buffer(&mut encoder).unwrap_err()
}

#[test]
fn varint_lengths() {
    for (v, n) in [
        (0, 1),
        (127, 1),
        (128, 2),
        (16_383, 2),
        (16_384, 3),
        (2_097_151, 3),
        (2_097_152, 4),
        (268_435_455, 4),
    ] {
        assert_eq!(varint_len(v), n);
    }
}

#[test]
fn long_packets_have_long_headers() {
    let payload = [7u8; 200];
    let packet = Publish {
        dup: true,
        qos: QoS::ExactlyOnce,
        retain: true,
        pid: Some(pid(0x1234)),
        topic_name: "a",
        payload: &payload,
        properties: Properties::default(),
    };
    let bytes = encode(&packet);
    assert_eq!(&bytes[..9], &[0x3d, 0xce, 1, 0, 1, 0x61, 0x12, 0x34, 0]);
    assert_eq!(bytes.len(), 209);
    let decoder = MqttDecoder::try_new(&bytes).unwrap();
    let header = decoder.fixed_header();
    assert_eq!(header.typ, PacketType::Publish);
    assert!(header.dup && header.retain);
    assert_eq!(header.qos, QoS::ExactlyOnce);
    assert_eq!(header.remaining_len, 206);
    assert_eq!(decoder.packet_len(), 209);
    match ReceivedPacket::from_buffer(&bytes) {
        Ok(ReceivedPacket::PartialPublish {
            qos_pid,
            topic_name,
            publish,
        }) => {
            assert_eq!(qos_pid, QosPid::ExactlyOnce(pid(0x1234)));
            assert_eq!(topic_name, "a");
            assert_eq!(publish.len(), 209);
            let mut copy = [0u8; 300];
            assert_eq!(publish.copy_buffered(&mut copy), 209);
            assert_eq!(&copy[..209], &bytes[..]);
            assert_eq!(publish.as_publish().unwrap().payload, &payload);
        }
        _ => panic!("Expected Publish packet"),
    }
}

#[test]
fn max_packet_size_is_enough() {
    let packet = Publish {
        dup: false,
        qos: QoS::AtLeastOnce,
        retain: false,
        pid: Some(pid(1)),
        topic_name: "abc",
        payload: b"0123",
        properties: Properties::Slice(&[Property::UserProperty("k", "v")]),
    };
    let n = packet.max_packet_size();
    assert_eq!(n, 5 + 5 + 2 + 8 + 4);
    let mut buf = vec![0u8; n];
    packet.to_buffer(&mut MqttEncoder::new(&mut buf)).unwrap();
    assert_eq!(error(&packet, n - 1), EncodingError::BufferSize);
}

#[test]
fn the_start_of_a_publication_is_enough() {
    let packet = Publish::<&[u8]>::builder()
        .topic_name("abc")
        .payload(b"0123456789")
        .qos(QoS::AtMostOnce)
        .build();
    let bytes = encode(&packet);
    assert_eq!(bytes.len(), 18);
    match ReceivedPacket::from_buffer(&bytes[..10]) {
        Ok(ReceivedPacket::PartialPublish {
            qos_pid: QosPid::AtMostOnce,
            topic_name: "abc",
            publish,
        }) => {
            assert_eq!(publish.len(), 18);
            let mut copy = [0u8; 18];
            assert_eq!(publish.copy_buffered(&mut copy), 10);
        }
        _ => panic!("Expected Publish packet"),
    }
}

#[test]
fn encoding_errors() {
    let packet = Publish {
        dup: false,
        qos: QoS::AtLeastOnce,
        retain: false,
        pid: None,
        topic_name: "a",
        payload: b"x",
        properties: Properties::default(),
    };
    assert_eq!(error(&packet, 64), EncodingError::PidMissing);
    assert_eq!(error(&PingReq, 4), EncodingError::BufferSize);
    let topics = ["a"];
    let packet = Unsubscribe::new(&topics);
    assert_eq!(packet.pid(), None);
    // The first packet identifier stands for the one that is missing
    assert_eq!(encode(&packet), [0xa2, 6, 0, 1, 0, 0, 1, 0x61]);
    let packet = Publish {
        dup: false,
        qos: QoS::AtMostOnce,
        retain: false,
        pid: None,
        topic_name: "a",
        payload: DeferredPayload::new(|_: &mut [u8]| Err(EncodingError::NoTopic), 4),
        properties: Properties::default(),
    };
    assert_eq!(error(&packet, 64), EncodingError::NoTopic);
}

#[test]
fn decoding_errors() {
    let fault = |bytes: &[u8]| ReceivedPacket::from_buffer(bytes).unwrap_err();
    assert_eq!(fault(&[]), EncodingError::InsufficientBytes);
    assert_eq!(fault(&[0xd0]), EncodingError::InsufficientBytes);
    assert_eq!(fault(&[0x00, 0]), EncodingError::InvalidHeader);
    assert_eq!(
        fault(&[0xd0, 0x80, 0x80, 0x80, 0x80, 1]),
        EncodingError::MalformedPacket
    );
    assert_eq!(fault(&[0x20, 3, 2, 0, 0]), EncodingError::MalformedPacket);
    assert_eq!(fault(&[0x40, 2, 0, 0]), EncodingError::BadIdentifier(0));
    assert_eq!(fault(&[0x40, 2, 1]), EncodingError::InsufficientBytes);
    assert_eq!(fault(&[0x36, 0]), EncodingError::WrongQos(6));
    assert!(Pid::try_from(0).is_err());
}

#[test]
fn answers_round_trip() {
    let props = [Property::ReasonString("why")];
    let properties = Properties::Slice(&props);

    let bytes = encode(&PubAck {
        pid: pid(3),
        reason_code: PubAckReasonCode::NotAuthorized,
        properties,
    });
    assert_eq!(
        bytes,
        [0x40, 10, 0, 3, 0x87, 6, 31, 0, 3, 0x77, 0x68, 0x79]
    );
    match ReceivedPacket::from_buffer(&bytes) {
        Ok(ReceivedPacket::PubAck(packet)) => {
            assert_eq!(packet.reason_code, PubAckReasonCode::NotAuthorized);
            assert_eq!(packet.properties, properties);
        }
        _ => panic!("Expected PubAck packet"),
    }

    let bytes = encode(&PubRec {
        pid: pid(4),
        reason_code: PubRecReasonCode::QuotaExceeded,
        properties: Properties::default(),
    });
    match ReceivedPacket::from_buffer(&bytes) {
        Ok(ReceivedPacket::PubRec(packet)) => {
            assert_eq!(packet.pid, pid(4));
            assert_eq!(packet.reason_code, PubRecReasonCode::QuotaExceeded);
        }
        _ => panic!("Expected PubRec packet"),
    }

    let bytes = encode(&PubRel { pid: pid(5) });
    assert_eq!(bytes, [0x62, 2, 0, 5]);
    assert!(matches!(
        ReceivedPacket::from_buffer(&bytes),
        Ok(ReceivedPacket::PubRel(PubRel { .. }))
    ));

    let bytes = encode(&PubComp {
        pid: pid(6),
        reason_code: PubCompReasonCode::PacketIdNotFound,
        properties: Properties::default(),
    });
    assert!(matches!(
        ReceivedPacket::from_buffer(&bytes),
        Ok(ReceivedPacket::PubComp(PubComp {
            reason_code: PubCompReasonCode::PacketIdNotFound,
            ..
        }))
    ));

    let bytes = encode(&SubAck {
        pid: pid(7),
        properties: Properties::default(),
        codes: &[0, 1, 0x80],
    });
    assert_eq!(bytes, [0x90, 6, 0, 7, 0, 0, 1, 0x80]);
    match ReceivedPacket::from_buffer(&bytes) {
        Ok(ReceivedPacket::SubAck(packet)) => assert_eq!(packet.codes, &[0, 1, 0x80]),
        _ => panic!("Expected SubAck packet"),
    }

    let bytes = [0xb0, 5, 0, 8, 0, 0, 0x11];
    assert!(ReceivedPacket::is_receivable(&bytes));
    match ReceivedPacket::from_buffer(&bytes) {
        Ok(ReceivedPacket::UnsubAck(packet)) => {
            assert_eq!(encode(&packet), bytes);
            assert_eq!(packet.clone(), packet);
        }
        _ => panic!("Expected UnsubAck packet"),
    }
    assert!(!ReceivedPacket::is_receivable(&[
        0xb0, 12, 0, 8, 0, 0, 0, 0, 0, 0, 0, 0, 0, 0
    ]));

    let bytes = encode(&Disconnect {
        reason_code: DisconnectReasonCode::ServerBusy,
        properties,
    });
    match ReceivedPacket::from_buffer(&bytes) {
        Ok(ReceivedPacket::Disconnect(packet)) => {
            assert_eq!(packet.reason_code, DisconnectReasonCode::ServerBusy);
        }
        _ => panic!("Expected Disconnect packet"),
    }

    let bytes = encode(&ConnAck {
        session_present: true,
        reason_code: ConnAckReasonCode::Banned,
        properties: Properties::default(),
    });
    assert_eq!(bytes, [0x20, 3, 1, 0x8a, 0]);
    assert_eq!(encode(&PingResp), [0xd0, 0]);
}

#[test]
fn requests_on_the_wire() {
    let will = LastWill {
        topic: "w",
        data: b"bye",
        qos: QoS::ExactlyOnce,
        retained: true,
        properties: Properties::Slice(&[Property::WillDelayInterval(5)]),
    };
    let connect = Connect {
        protocol: Protocol::MQTT5,
        properties: Properties::default(),
        keep_alive: 258,
        client_id: "c",
        username: Some("u"),
        password: Some(b"p"),
        last_will: Some(will),
        clean_start: false,
    };
    assert_eq!(
        encode(&connect),
        [
            0x10, 34, 0, 4, 0x4d, 0x51, 0x54, 0x54, 5, 0xf4, 1, 2, 0, 0, 1, 0x63, 5, 24, 0, 0, 0,
            5, 0, 1, 0x77, 0, 3, 0x62, 0x79, 0x65, 0, 1, 0x75, 0, 1, 0x70
        ]
    );

    let topics = ["a", "bc"];
    let mut packet = Unsubscribe::new(&topics);
    packet.set_pid(pid(9));
    assert_eq!(packet.pid(), Some(pid(9)));
    assert_eq!(
        encode(&packet),
        [0xa2, 10, 0, 9, 0, 0, 1, 0x61, 0, 2, 0x62, 0x63]
    );

    let topics = [SubscribeTopic {
        topic_path: "a",
        maximum_qos: QoS::ExactlyOnce,
        no_local: true,
        retain_as_published: true,
        retain_handling: mqttrust::encoding::packets::RetainHandling::DoNotSend,
    }];
    let mut packet = Subscribe::new(&topics);
    packet.set_pid(pid(10));
    assert_eq!(encode(&packet), [0x82, 7, 0, 10, 0, 0, 1, 0x61, 0x2e]);
}

#[test]
fn all_properties_round_trip() {
    let props = [
        Property::PayloadFormatIndicator(1),
        Property::MessageExpiryInterval(0x0102_0304),
        Property::ContentType("c"),
        Property::ResponseTopic("r"),
        Property::CorrelationData(&[1, 2]),
        Property::SubscriptionIdentifier(300),
        Property::SessionExpiryInterval(5),
        Property::AssignedClientIdentifier("i"),
        Property::ServerKeepAlive(6),
        Property::AuthenticationMethod("m"),
        Property::AuthenticationData(&[3]),
        Property::RequestProblemInformation(0),
        Property::WillDelayInterval(7),
        Property::RequestResponseInformation(1),
        Property::ResponseInformation("f"),
        Property::ServerReference("s"),
        Property::ReasonString("e"),
        Property::ReceiveMaximum(8),
        Property::TopicAliasMaximum(9),
        Property::TopicAlias(10),
        Property::MaximumQoS(2),
        Property::RetainAvailable(1),
        Property::UserProperty("k", "v"),
        Property::MaximumPacketSize(11),
        Property::WildcardSubscriptionAvailable(1),
        Property::SubscriptionIdentifierAvailable(0),
        Property::SharedSubscriptionAvailable(1),
    ];
    let properties = Properties::Slice(&props);
    let block = properties.to_block();
    assert_eq!(block.len(), properties.size());
    assert_eq!(&block[..7], &[1, 1, 2, 1, 2, 3, 4]);
    let read = Properties::DataBlock(&block);
    assert_eq!(read, properties);
    let mut iter = read.iter();
    for property in props {
        let found = iter.next().unwrap().unwrap();
        assert_eq!(found, property);
        assert_eq!(found.property_id(), PropertyIdentifier::from(&property));
    }
    assert!(iter.next().is_none());
    assert_eq!(read.iter().response_topic(), Some("r"));

    let correlated = Properties::CorrelatedSlice {
        correlation: Property::CorrelationData(&[1]),
        properties: &[Property::TopicAlias(2)],
    };
    assert_eq!(correlated.to_block(), [9, 0, 1, 1, 35, 0, 2]);
    assert_eq!(correlated.size(), 7);
    assert_eq!(correlated.iter().response_topic(), None);
}

#[test]
fn unknown_properties_end_the_list() {
    let block = [36, 1, 99, 0];
    let mut iter = Properties::DataBlock(&block).iter();
    assert!(matches!(iter.next(), Some(Ok(Property::MaximumQoS(1)))));
    assert!(matches!(
        iter.next(),
        Some(Err(Error::Encoding(EncodingError::InvalidProperty(99))))
    ));
    assert!(iter.next().is_none());
}

#[test]
fn reason_codes() {
    assert_eq!(u8::from(ConnAckReasonCode::NotAuthorized), 0x87);
    assert_eq!(
        ConnAckReasonCode::from(0x87),
        ConnAckReasonCode::NotAuthorized
    );
    assert!(ConnAckReasonCode::Success.success());
    assert!(!ConnAckReasonCode::NotAuthorized.success());
    assert_eq!(u8::from(PubAckReasonCode::NoMatchingSubscribers), 0x10);
    assert_eq!(u8::from(PubRelReasonCode::PacketIdNotFound), 0x92);
    assert_eq!(SubAckReasonCode::from(2), SubAckReasonCode::GrantedQoS2);
    assert!(SubAckReasonCode::GrantedQoS2.success());
    assert!(UnsubAckReasonCode::Success.success());
    assert_eq!(u8::from(DisconnectReasonCode::default()), 0);
    assert_eq!(u8::from(v3::ConnAckReasonCode::ConnectionAccepted), 0);
    assert!(v3::ConnAckReasonCode::ConnectionAccepted.success());
}

#[test]
fn packet_types() {
    assert_eq!(u8::from(PacketType::Subscribe), 0x80);
    assert_eq!(PacketType::try_from(0x80), Ok(PacketType::Subscribe));
    assert!(PacketType::try_from(0).is_err());
    assert_eq!(packet::PacketType::Subscribe.to_byte(), 0x82);
    assert_eq!(
        packet::PacketType::try_from(0x82),
        Ok(packet::PacketType::Subscribe)
    );
    assert!(packet::PacketType::try_from(0x02).is_err());
}

#[test]
fn protocols() {
    assert_eq!(Protocol::MQTT311.name(), "MQTT");
    assert_eq!(Protocol::MQIsdp.name(), "MQIsdp");
    assert_eq!(u8::from(Protocol::MQTT5), 5);
    assert_eq!(Protocol::try_from(4).unwrap(), Protocol::MQTT311);
    assert!(Protocol::try_from(6).is_err());
    assert_eq!(u8::from(QoS::ExactlyOnce), 2);
    assert_eq!(QoS::try_from(1).unwrap(), QoS::AtLeastOnce);
    assert!(QoS::try_from(3).is_err());
    assert_eq!(QosPid::AtLeastOnce(pid(3)).pid(), Some(pid(3)));
    assert_eq!(QosPid::AtMostOnce.pid(), None);
    assert_eq!(QosPid::ExactlyOnce(pid(3)).qos(), QoS::ExactlyOnce);
}

#[test]
fn three_point_one_packets_on_the_wire() {
    assert_eq!(
        encode(&v3::ConnAck {
            session_present: true,
            reason_code: v3::ConnAckReasonCode::ConnectionAccepted,
        }),
        [0x20, 2, 1, 0]
    );
    assert_eq!(encode(&v3::Disconnect::new()), [0xe0, 0]);
    assert_eq!(encode(&v3::UnsubAck { pid: pid(1) }), [0xb0, 2, 0, 1]);
    assert_eq!(encode(&v3::PubRec { pid: pid(1) }), [0x50, 2, 0, 1]);
    assert_eq!(encode(&v3::PubComp { pid: pid(1) }), [0x70, 2, 0, 1]);
    let bytes = [0x70, 2, 0, 1];
    let mut decoder = MqttDecoder::try_new(&bytes).unwrap();
    assert_eq!(
        v3::PubComp::from_decoder(&mut decoder).unwrap(),
        v3::PubComp { pid: pid(1) }
    );
}

#[test]
fn unsuback_with_codes() {
    let bytes = [0xb0, 4, 0, 8, 0, 0];
    let mut decoder = MqttDecoder::try_new(&bytes).unwrap();
    let packet = UnsubAck::from_decoder(&mut decoder).unwrap();
    assert_eq!(packet.pid, pid(8));
    assert_eq!(decoder.offset(), 6);
}

#[test]
fn decoded_properties_are_raw() {
    let packets: [&[u8]; 9] = [
        &[0x20, 3, 0, 0, 0],
        &[0x40, 2, 0, 1],
        &[0x50, 8, 0, 1, 0x97, 4, 31, 0, 1, 0x77],
        &[0x70, 4, 0, 1, 0x92, 0],
        &[0x90, 4, 0, 1, 0, 1],
        &[0xb0, 4, 0, 1, 0, 0],
        &[0xe0, 0],
        &[0xe0, 2, 0x89, 0],
        &[0xe0, 6, 0x89, 4, 31, 0, 1, 0x77],
    ];
    for bytes in packets {
        let properties = match ReceivedPacket::from_buffer(bytes).unwrap() {
            ReceivedPacket::ConnAck(packet) => packet.properties,
            ReceivedPacket::PubAck(packet) => packet.properties,
            ReceivedPacket::PubRec(packet) => packet.properties,
            ReceivedPacket::PubComp(packet) => packet.properties,
            ReceivedPacket::SubAck(packet) => packet.properties,
            ReceivedPacket::UnsubAck(packet) => packet.properties,
            ReceivedPacket::Disconnect(packet) => packet.properties,
            _ => panic!("Expected a packet with properties"),
        };
        let block: &[u8] = if bytes.len() < 8 { &[] } else { &[31, 0, 1, 0x77] };
        match properties {
            Properties::DataBlock(data) => assert_eq!(data, block),
            _ => panic!("Expected properties as they were received"),
        }
    }
}

#[test]
fn decoded_length_is_encoded_length() {
    let payload = [7u8; 200];
    let filters = ["a/#", "b/+/c"];
    let mut unsubscribe = Unsubscribe::new(&filters);
    unsubscribe.set_pid(pid(6));
    let packets = [
        encode(&PingReq),
        encode(&PubRel { pid: pid(5) }),
        encode(&unsubscribe),
        encode(&Publish {
            dup: true,
            qos: QoS::AtMostOnce,
            retain: true,
            pid: None,
            topic_name: "a",
            payload: &payload,
            properties: Properties::default(),
        }),
    ];
    for bytes in packets {
        let mut stream = bytes.clone();
        stream.extend([0xff, 0x80, 1]);
        assert_eq!(
            MqttDecoder::try_new(&bytes).unwrap().packet_len(),
            bytes.len()
        );
        assert_eq!(
            MqttDecoder::try_new(&stream).unwrap().packet_len(),
            bytes.len()
        );
    }
}

#[test]
fn failing_payloads_fail_the_packet() {
    let packet = |n: Result<usize, EncodingError>, max_len: usize| Publish {
        dup: false,
        qos: QoS::AtMostOnce,
        retain: false,
        pid: None,
        topic_name: "t",
        payload: DeferredPayload::new(
            move |buf: &mut [u8]| {
                // The room is what the header, the topic and the length of the
                // properties leave
                assert_eq!(buf.len(), 12 - 5 - 3 - 1);
                buf[0] = 9;
                buf[1] = 8;
                n.clone()
            },
            max_len,
        ),
        properties: Properties::default(),
    };
    let mut buf = [0u8; 12];
    let mut encoder = MqttEncoder::new(&mut buf);
    assert_eq!(encoder.used_size(), 5);
    packet(Ok(2), 3).to_buffer(&mut encoder).unwrap();
    assert_eq!(encoder.packet_bytes(), [0x30, 6, 0, 1, 0x74, 0, 9, 8]);

    assert_eq!(
        error(&packet(Err(EncodingError::InvalidHeader), 3), 12),
        EncodingError::InvalidHeader
    );
    assert_eq!(error(&packet(Ok(2), 4), 12), EncodingError::BufferSize);
}

#[test]
fn sizes_of_joined_properties() {
    let a = [Property::ReasonString("why"), Property::ReceiveMaximum(7)];
    let b = [
        Property::SubscriptionIdentifier(200),
        Property::UserProperty("k", "v"),
    ];
    let joined = [a[0], a[1], b[0], b[1]];
    let correlation = Property::CorrelationData(b"id");
    let size = |list: &[Property<'_>]| Properties::Slice(list).size();
    assert_eq!((size(&[]), size(&a), size(&b)), (0, 9, 10));
    assert_eq!(size(&joined), size(&a) + size(&b));
    assert_eq!(
        Properties::CorrelatedSlice {
            correlation,
            properties: &a
        }
        .size(),
        size(&[correlation]) + size(&a)
    );
    assert_eq!(Properties::DataBlock(&[1, 2, 3]).size(), 3);
}
