use mqttrust::encoding::packets::Protocol;
use mqttrust::encoding::v4::connect::{Connack, Connect, ConnectReturnCode, LastWill};
use mqttrust::encoding::v4::{read_header, Error, Header, PacketType};
use mqttrust::encoding::{Pid, QoS};

#[test]
fn pid_add_sub() {
    let t: Vec<(u16, u16, u16, u16)> = vec![
        (2, 1, 1, 3),
        (100, 1, 99, 101),
        (1, 1, core::u16::MAX, 2),
        (1, 2, core::u16::MAX - 1, 3),
        (1, 3, core::u16::MAX - 2, 4),
        (core::u16::MAX, 1, core::u16::MAX - 1, 1),
        (core::u16::MAX, 2, core::u16::MAX - 2, 2),
        (10, core::u16::MAX, 10, 10),
        (10, 0, 10, 10),
        (1, 0, 1, 1),
        (core::u16::MAX, 0, core::u16::MAX, core::u16::MAX),
    ];
    for (cur, d, prev, next) in t {
        let sub = Pid::try_from(cur).unwrap() - d;
        let add = Pid::try_from(cur).unwrap() + d;
        assert_eq!(prev, sub.get(), "{} - {} should be {}", cur, d, prev);
        assert_eq!(next, add.get(), "{} + {} should be {}", cur, d, next);
    }
}

#[test]
fn connect_round_trip() {
    let connect = Connect {
        protocol: Protocol::MQTT311,
        keep_alive: 30,
        client_id: "id",
        clean_session: false,
        last_will: Some(LastWill {
            topic: "w",
            message: b"m",
            qos: QoS::AtLeastOnce,
            retain: false,
        }),
        username: Some("u"),
        password: None,
    };
    let mut buf = [0u8; 64];
    let mut offset = 3;
    let n = connect.to_buffer(&mut buf, &mut offset).unwrap();
    assert_eq!(offset, 3 + n);
    assert_eq!(buf[3], 0x10);

    let mut offset = 3;
    let (header, len) = read_header(&buf[..3 + n], &mut offset).unwrap().unwrap();
    assert_eq!(header.typ, PacketType::Connect);
    assert_eq!((len, offset), (n - 2, 5));
    assert_eq!(connect.len(), n - 2);
    assert_eq!(Connect::from_buffer(&buf, &mut offset), Ok(connect));
    assert_eq!(offset, 3 + n);
}

#[test]
fn connect_errors() {
    let connect = Connect {
        protocol: Protocol::MQTT311,
        keep_alive: 30,
        client_id: "id",
        clean_session: true,
        last_will: None,
        username: None,
        password: None,
    };
    let mut buf = [0u8; 8];
    let mut offset = 0;
    assert_eq!(
        connect.to_buffer(&mut buf, &mut offset),
        Err(Error::WriteZero)
    );
    assert_eq!((offset, buf), (0, [0u8; 8]));
    let mut offset = 0;
    assert_eq!(
        Connect::from_buffer(&[0, 1, 0x41, 4, 0, 0, 0], &mut offset),
        Err(Error::InvalidProtocol("A".to_string(), 4))
    );
    assert_eq!(offset, 4);
    let mut offset = 0;
    assert_eq!(
        Connect::from_buffer(&[0, 9, 0x41], &mut offset),
        Err(Error::InvalidLength)
    );
    assert_eq!(offset, 2);
    let mut offset = 0;
    assert_eq!(
        Connect::from_buffer(&[0, 1, 0xff, 4], &mut offset),
        Err(Error::InvalidString)
    );
    assert_eq!(offset, 3);
    // A will with QoS 3
    let bytes = [
        0, 4, 0x4d, 0x51, 0x54, 0x54, 4, 0x1c, 0, 30, 0, 0, 0, 1, 0x77, 0, 0,
    ];
    let mut offset = 0;
    assert_eq!(
        Connect::from_buffer(&bytes, &mut offset),
        Err(Error::InvalidQos(3))
    );
    assert_eq!(offset, 17);
}

#[test]
fn what_a_connect_that_does_not_fit_leaves_behind() {
    let connect = |protocol| Connect {
        protocol,
        keep_alive: 30,
        client_id: "id",
        clean_session: true,
        last_will: None,
        username: None,
        password: None,
    };
    // There is room for all but the length: the first byte has been written
    let mut buf = [7u8; 17];
    let mut offset = 2;
    assert_eq!(
        connect(Protocol::MQTT311).to_buffer(&mut buf, &mut offset),
        Err(Error::WriteZero)
    );
    assert_eq!(offset, 3);
    assert_eq!(
        buf,
        [7, 7, 0x10, 7, 7, 7, 7, 7, 7, 7, 7, 7, 7, 7, 7, 7, 7]
    );

    // The longer name takes the packet behind the end of the buffer
    let mut buf = [7u8; 18];
    let mut offset = 1;
    assert_eq!(
        connect(Protocol::MQIsdp).to_buffer(&mut buf, &mut offset),
        Err(Error::WriteZero)
    );
    assert_eq!(offset, 18);
    assert_eq!(
        buf,
        [
            7, 0x10, 14, 0, 6, 0x4d, 0x51, 0x49, 0x73, 0x64, 0x70, 3, 2, 0, 30, 0, 2, 0x69
        ]
    );
}

#[test]
fn connack_round_trip() {
    let connack = Connack {
        session_present: true,
        code: ConnectReturnCode::BadUsernamePassword,
    };
    let mut buf = [0u8; 4];
    let mut offset = 0;
    assert_eq!(connack.to_buffer(&mut buf, &mut offset), Ok(4));
    assert_eq!(buf, [0x20, 2, 1, 4]);
    let mut offset = 2;
    assert_eq!(Connack::from_buffer(&buf, &mut offset), Ok(connack));
    let mut offset = 0;
    assert_eq!(
        Connack::from_buffer(&[0, 6], &mut offset),
        Err(Error::InvalidConnectReturnCode(6))
    );
    let mut offset = 1;
    assert_eq!(
        connack.to_buffer(&mut buf, &mut offset),
        Err(Error::WriteZero)
    );
}

#[test]
fn headers() {
    assert_eq!(
        Header::new(0x3b),
        Ok(Header {
            typ: PacketType::Publish,
            dup: true,
            qos: QoS::AtLeastOnce,
            retain: true
        })
    );
    assert_eq!(Header::new(0x63), Err(Error::InvalidHeader));
    assert_eq!(Header::new(0x62).unwrap().typ, PacketType::Pubrel);
    assert_eq!(Header::new(0x36), Err(Error::InvalidQos(3)));
    assert_eq!(Header::new(0xf0), Err(Error::InvalidHeader));

    let mut offset = 0;
    assert_eq!(read_header(&[0x30, 0x80], &mut offset), Ok(None));
    assert_eq!(read_header(&[0x30, 2, 0], &mut offset), Ok(None));
    assert_eq!(
        read_header(&[0x30, 0x80, 0x80, 0x80, 0x80], &mut offset),
        Err(Error::InvalidHeader)
    );
    assert_eq!(offset, 0);
}

#[test]
fn no_header_behind_the_end() {
    for start in [2, 3, 100, usize::MAX] {
        let mut offset = start;
        assert_eq!(read_header(&[0xd0, 0], &mut offset), Ok(None));
        assert_eq!(offset, start);
    }
}

#[test]
fn pids_and_qualities_of_service() {
    let mut buf = [0u8; 2];
    let mut offset = 0;
    let pid = Pid::try_from(0x1234).unwrap();
    pid.to_buffer(&mut buf, &mut offset).unwrap();
    assert_eq!(buf, [0x12, 0x34]);
    let mut offset = 0;
    assert_eq!(Pid::from_buffer(&buf, &mut offset), Ok(pid));
    assert_eq!(offset, 2);
    let mut offset = 0;
    assert_eq!(
        Pid::from_buffer(&[0, 0], &mut offset),
        Err(Error::InvalidPid(0))
    );
    assert_eq!(QoS::ExactlyOnce.as_u8(), 2);
    assert_eq!(QoS::from_u8(1), Ok(QoS::AtLeastOnce));
    assert_eq!(QoS::from_u8(3), Err(Error::InvalidQos(3)));
}
