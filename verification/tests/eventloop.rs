use mqttrust::encoding::packets::Protocol;
use mqttrust::encoding::v4::connect::{Connect, LastWill};
use mqttrust::encoding::QoS;
use mqttrust::eventloop::{
    is_decodable, CodecError, ConnectAction, ConnectEvent, EventError, EventLoop,
    MqttConnectionStatus, NetworkAction, NetworkError, NetworkEvent, NextRequest, Outgoing,
    PacketBuffer, Selection,
};
use mqttrust::options::MqttOptions;

fn connack() -> mqttrs::Packet<'static> {
    mqttrs::Packet::Connack(mqttrs::Connack {
        session_present: false,
        code: mqttrs::ConnectReturnCode::Accepted,
    })
}

fn publish() -> mqttrs::Packet<'static> {
    mqttrs::Packet::Publish(mqttrs::Publish {
        dup: false,
        qospid: mqttrs::QosPid::AtLeastOnce(mqttrs::Pid::new()),
        retain: false,
        topic_name: "test/topic",
        payload: &[0xff; 1003],
    })
}

/// Puts a packet into the fresh part of the buffer.
fn put(rx_buf: &mut PacketBuffer, packet: &mqttrs::Packet<'_>) {
    let len = mqttrs::encode_slice(packet, rx_buf.buffer()).unwrap();
    rx_buf.receive(len);
}

#[test]
fn success_receive_multiple_packets() {
    let mut rx_buf = PacketBuffer::new();
    put(&mut rx_buf, &connack());
    put(&mut rx_buf, &publish());
    assert_eq!(rx_buf.buffer().len(), 0);

    // Decode the first Connack packet.
    assert!(rx_buf.is_decodable());
    assert_eq!(rx_buf.decode().unwrap(), Some(connack()));
    assert_eq!(rx_buf.packet_length(), 4);
    rx_buf.clean_up(Some(false));

    // Decode the second Publish packet.
    assert!(rx_buf.is_decodable());
    assert_eq!(rx_buf.decode().unwrap(), Some(publish()));
    rx_buf.clean_up(Some(false));

    assert_eq!(rx_buf.buffer().len(), 1024);
    assert!((0..1024).all(|i| rx_buf.buffer()[i] == 0));
    assert_eq!(rx_buf.decode().unwrap(), None);
}

#[test]
fn failure_receive_multiple_packets() {
    let mut event_loop = EventLoop::new(MqttOptions::new("client"));
    event_loop.state.connection_status = MqttConnectionStatus::Handshake;
    let rx_buf = &mut event_loop.rx_buf;
    let connack_malformed_len = mqttrs::encode_slice(&connack(), rx_buf.buffer()).unwrap();
    rx_buf.buffer()[3] = 6; // An invalid connect return code.
    rx_buf.receive(connack_malformed_len);
    put(rx_buf, &publish());
    assert_eq!(rx_buf.buffer().len(), 0);

    // When a packet is malformed, we cannot tell its length. The decoder
    // discards the entire buffer.
    assert!(rx_buf.is_decodable());
    match rx_buf.decode() {
        Ok(_) => panic!(),
        Err(e) => {
            assert_eq!(
                EventError::Encoding(e),
                EventError::Encoding(CodecError::InvalidConnectReturnCode(6))
            )
        }
    }
    rx_buf.clean_up(Some(true));
    assert_eq!(rx_buf.buffer().len(), 1024);
    assert!((0..1024).all(|i| rx_buf.buffer()[i] == 0));
    assert_eq!(
        event_loop.state.connection_status,
        MqttConnectionStatus::Handshake
    );
}

#[test]
fn incomplete_packets_are_kept() {
    let mut rx_buf = PacketBuffer::new();
    rx_buf.buffer()[..3].copy_from_slice(&[0x20, 2, 0]);
    rx_buf.receive(3);
    assert!(rx_buf.is_decodable());
    assert_eq!(rx_buf.decode(), Ok(None));
    rx_buf.clean_up(None);
    rx_buf.buffer()[0] = 0;
    rx_buf.receive(1);
    assert_eq!(rx_buf.decode(), Ok(Some(connack())));
    rx_buf.rotate(4);
    assert_eq!(rx_buf.buffer().len(), 1024);
}

#[test]
fn decoding_faults() {
    for (bytes, fault) in [
        (&[0x00u8, 0][..], CodecError::InvalidHeader),
        (&[0x36, 0], CodecError::InvalidQos(3)),
        (&[0x40, 2, 0, 0], CodecError::InvalidPid),
        (&[0x30, 4, 0, 9, 0, 0], CodecError::InvalidLength),
        (&[0x30, 3, 0, 1, 0xff], CodecError::InvalidString),
        (
            &[0x10, 6, 0, 1, 0x41, 9, 0, 0],
            CodecError::InvalidProtocol("A".to_string(), 9),
        ),
    ] {
        let mut rx_buf = PacketBuffer::new();
        rx_buf.buffer()[..bytes.len()].copy_from_slice(bytes);
        rx_buf.receive(bytes.len());
        assert!(rx_buf.is_decodable());
        assert_eq!(rx_buf.decode(), Err(fault));
    }
}

#[test]
fn packets_that_are_too_short_for_their_type() {
    // A Connack packet without a body
    assert!(!is_decodable(&[0x20, 0]));
    // A Publish packet with QoS 1 and no packet identifier
    assert!(!is_decodable(&[0x32, 3, 0, 1, 0x41]));
    // A Connect packet that ends behind the name of the protocol
    assert!(!is_decodable(&[0x10, 6, 0, 4, 0x4d, 0x51, 0x54, 0x54]));
    // A Subscribe packet whose topic has no quality of service
    assert!(!is_decodable(&[0x82, 5, 0, 1, 0, 1, 0x41]));
    assert!(is_decodable(&[0x82, 6, 0, 1, 0, 1, 0x41, 1]));
    // A protocol that is refused, and one that would be read on
    assert!(is_decodable(&[0x10, 7, 0, 4, 0x4d, 0x51, 0x54, 0x54, 5]));
    assert!(!is_decodable(&[0x10, 7, 0, 4, 0x4d, 0x51, 0x54, 0x54, 4]));
    assert!(!is_decodable(&[0x10, 6, 0, 4, 0x4d, 0x51, 0x54, 0x54]));
    assert!(is_decodable(&[0xd0, 0]));
    assert!(is_decodable(&[]));
}

#[test]
fn encode_connect_and_pingreq() {
    let connect = Connect {
        protocol: Protocol::MQTT311,
        keep_alive: 60,
        client_id: "id",
        clean_session: true,
        last_will: Some(LastWill {
            topic: "w",
            message: b"m",
            qos: QoS::ExactlyOnce,
            retain: true,
        }),
        username: Some("u"),
        password: Some(b"p"),
    };
    let expected = [
        0x10, 26, 0, 4, 0x4d, 0x51, 0x54, 0x54, 4, 0xf6, 0, 60, 0, 2, 0x69, 0x64, 0, 1, 0x77, 0,
        1, 0x6d, 0, 1, 0x75, 0, 1, 0x70,
    ];
    let mut buf = [0u8; 64];
    let n = EventLoop::encode(&Outgoing::Connect(connect.clone()), &mut buf).unwrap();
    assert_eq!(&buf[..n], &expected);
    assert_eq!(
        EventLoop::encode(&Outgoing::Connect(connect.clone()), &mut [0u8; 8]),
        Err(EventError::Encoding(CodecError::WriteZero))
    );
    // There is room for all but the length: the first byte has been written
    for (len, first) in [(26, 7), (27, 0x10)] {
        let mut short = vec![7u8; len];
        assert_eq!(
            EventLoop::encode(&Outgoing::Connect(connect.clone()), &mut short),
            Err(EventError::Encoding(CodecError::WriteZero))
        );
        assert_eq!(short[0], first);
        assert!(short[1..].iter().all(|byte| *byte == 7));
    }
    for (protocol, name, level) in [(Protocol::MQTT5, "MQTT", 5), (Protocol::MQIsdp, "MQIsdp", 3)] {
        let other = Connect {
            protocol,
            ..connect.clone()
        };
        assert_eq!(
            EventLoop::encode(&Outgoing::Connect(other), &mut [0u8; 64]),
            Err(EventError::Encoding(CodecError::InvalidProtocol(
                name.to_string(),
                level
            )))
        );
    }
    let mut single = [7u8];
    assert_eq!(
        EventLoop::encode(&Outgoing::Pingreq, &mut single),
        Err(EventError::Encoding(CodecError::WriteZero))
    );
    assert_eq!(single, [7]);

    let mut own = [0u8; 64];
    let mut offset = 0;
    connect.to_buffer(&mut own, &mut offset).unwrap();
    assert_eq!(&own[..offset], &expected);

    let n = EventLoop::encode(&Outgoing::Pingreq, &mut buf).unwrap();
    assert_eq!(&buf[..n], &[0xc0, 0]);
}

#[test]
fn requests_wait_for_acknowledgements() {
    let mut event_loop = EventLoop::new(MqttOptions::new("client"));
    assert_eq!(
        event_loop.select_event(NextRequest::Other, true),
        Selection::Request
    );
    event_loop.state.outgoing_pub = 3;
    assert!(!event_loop.should_handle_request(NextRequest::Other));
    assert!(!event_loop.should_handle_request(NextRequest::Publish(QoS::AtLeastOnce)));
    assert!(event_loop.should_handle_request(NextRequest::Publish(QoS::AtMostOnce)));
    assert!(!event_loop.should_handle_request(NextRequest::Nothing));
    assert_eq!(
        event_loop.select_event(NextRequest::Other, true),
        Selection::Ping
    );
    assert_eq!(
        event_loop.select_event(NextRequest::Nothing, false),
        Selection::Receive
    );
}

#[test]
fn connecting_the_network() {
    let mut event_loop = EventLoop::new(MqttOptions::new("client"));
    event_loop.state.connection_status = MqttConnectionStatus::Connected;
    let connected = NetworkEvent::Start {
        socket: Some(Some(true)),
    };
    assert_eq!(event_loop.network_connect(connected), NetworkAction::Done);
    assert_eq!(
        event_loop.network_connect(NetworkEvent::Start { socket: Some(None) }),
        NetworkAction::Drop(NetworkError::SocketClosed)
    );
    assert_eq!(
        event_loop.state.connection_status,
        MqttConnectionStatus::Connected
    );
    assert_eq!(
        event_loop.network_connect(NetworkEvent::Start { socket: None }),
        NetworkAction::Open
    );
    assert_eq!(
        event_loop.state.connection_status,
        MqttConnectionStatus::Disconnected
    );
    assert_eq!(event_loop.idle_timeout_ms(), 5000);
    for (event, action) in [
        (NetworkEvent::Opened(true), NetworkAction::LookUp),
        (
            NetworkEvent::Opened(false),
            NetworkAction::Fail(NetworkError::SocketOpen),
        ),
        (NetworkEvent::LookedUp(true), NetworkAction::Connect),
        (
            NetworkEvent::LookedUp(false),
            NetworkAction::Close(NetworkError::DnsLookupFailed),
        ),
        (NetworkEvent::Connected(true), NetworkAction::Done),
        (
            NetworkEvent::Connected(false),
            NetworkAction::Fail(NetworkError::SocketConnect),
        ),
    ] {
        assert_eq!(event_loop.network_connect(event), action);
    }
}

#[test]
fn connecting_to_the_broker() {
    let options = MqttOptions::new("client")
        .set_keep_alive(10)
        .set_credentials("user", b"pass");
    let mut event_loop = EventLoop::new(options);
    event_loop.state.await_pingresp = true;
    event_loop.state.outgoing_pub = 2;
    match event_loop.mqtt_connect(ConnectEvent::Start { timed_out: false }) {
        ConnectAction::Send(connect) => {
            assert_eq!(connect.keep_alive, 10);
            assert_eq!(connect.client_id, "client");
            assert_eq!(connect.username, Some("user"));
            assert_eq!(connect.password, Some(&b"pass"[..]));
            assert!(connect.clean_session);
        }
        _ => panic!("Expected a request to connect"),
    }
    assert!(!event_loop.state.await_pingresp);
    assert_eq!(event_loop.state.outgoing_pub, 0);
    assert!(matches!(
        event_loop.mqtt_connect(ConnectEvent::Sent(Ok(()))),
        ConnectAction::StartTimer(50000)
    ));
    assert_eq!(event_loop.idle_timeout_ms(), 10_000);
    assert!(matches!(
        event_loop.mqtt_connect(ConnectEvent::Start { timed_out: false }),
        ConnectAction::Receive
    ));
    assert!(matches!(
        event_loop.mqtt_connect(ConnectEvent::Pending),
        ConnectAction::WouldBlock
    ));
    assert!(matches!(
        event_loop.mqtt_connect(ConnectEvent::Received(Ok(None))),
        ConnectAction::WouldBlock
    ));
    assert!(matches!(
        event_loop.mqtt_connect(ConnectEvent::Received(Ok(Some(true)))),
        ConnectAction::Done(true)
    ));
    assert_eq!(
        event_loop.state.connection_status,
        MqttConnectionStatus::Connected
    );
    event_loop.state.connection_status = MqttConnectionStatus::Handshake;
    assert!(matches!(
        event_loop.mqtt_connect(ConnectEvent::Received(Ok(Some(false)))),
        ConnectAction::Done(false)
    ));
    assert!(matches!(
        event_loop.mqtt_connect(ConnectEvent::Start { timed_out: true }),
        ConnectAction::Close(EventError::Timeout)
    ));
    assert_eq!(
        event_loop.state.connection_status,
        MqttConnectionStatus::Disconnected
    );
    assert!(matches!(
        event_loop.mqtt_connect(ConnectEvent::Sent(Err(EventError::Network(
            NetworkError::Write
        )))),
        ConnectAction::Close(EventError::Network(NetworkError::Write))
    ));
    event_loop.state.connection_status = MqttConnectionStatus::Connected;
    assert!(matches!(
        event_loop.mqtt_connect(ConnectEvent::Start { timed_out: true }),
        ConnectAction::Done(false)
    ));
}
