use mqttrust::collections::UnsubAckCodes;
use mqttrust::config::Config;
use mqttrust::crate_config::MAX_SUBSCRIBERS;
use mqttrust::encoding::error::ErrorKind;
use mqttrust::encoding::packets::{
    ConnAck, Disconnect, LastWill, PubAck, PubComp, PubRec, PubRel, SubAck, UnsubAck,
};
use mqttrust::encoding::properties::{Properties, Property};
use mqttrust::encoding::received_packet::ReceivedPacket;
use mqttrust::encoding::{
    ConnAckReasonCode, Pid, PubAckReasonCode, PubCompReasonCode, PubRecReasonCode, QoS, QosPid,
    StateError, UnsubAckReasonCode,
};
use mqttrust::error::{ConnectionError, Error};
use mqttrust::stack::{
    encode_reply, Action, Event, MqttStack, Outcome, Reply, RunAction, RunEvent,
};
use mqttrust::state::Shared;
use mqttrust::time::{Duration, Instant};

fn config() -> Config<'static> {
    Config {
        client_id: "client",
        keepalive_interval: Duration::from_secs(60),
        username: None,
        password: None,
        last_will: None,
        max_qos: QoS::AtMostOnce,
    }
}

fn stack() -> MqttStack<'static> {
    MqttStack::new(config(), Instant { micros: 7 })
}

fn pid(n: u16) -> Pid {
    Pid::try_from(n).unwrap()
}

fn puback(n: u16) -> Event<'static> {
    Event::Received(ReceivedPacket::PubAck(PubAck {
        pid: pid(n),
        reason_code: PubAckReasonCode::Success,
        properties: Properties::default(),
    }))
}

fn pubrec(n: u16) -> Event<'static> {
    Event::Received(ReceivedPacket::PubRec(PubRec {
        pid: pid(n),
        reason_code: PubRecReasonCode::Success,
        properties: Properties::default(),
    }))
}

fn pubcomp(n: u16) -> Event<'static> {
    Event::Received(ReceivedPacket::PubComp(PubComp {
        pid: pid(n),
        reason_code: PubCompReasonCode::Success,
        properties: Properties::default(),
    }))
}

fn pubrel(n: u16) -> Event<'static> {
    Event::Received(ReceivedPacket::PubRel(PubRel { pid: pid(n) }))
}

fn suback(n: u16, codes: &'static [u8]) -> Event<'static> {
    Event::Received(ReceivedPacket::SubAck(SubAck {
        pid: pid(n),
        properties: Properties::default(),
        codes,
    }))
}

fn unsuback(n: u16, codes: &[UnsubAckReasonCode]) -> Event<'static> {
    Event::Received(ReceivedPacket::UnsubAck(UnsubAck {
        pid: pid(n),
        properties: Properties::default(),
        codes: UnsubAckCodes::from_slice(codes).unwrap(),
    }))
}

const NOTHING: Outcome = Outcome {
    action: Action::Continue,
    wake_tx: false,
};

const WOKEN: Outcome = Outcome {
    action: Action::Continue,
    wake_tx: true,
};

fn write(reply: Reply, wake_tx: bool) -> Outcome {
    Outcome {
        action: Action::Write(reply),
        wake_tx,
    }
}

#[test]
fn publications_are_tracked_until_they_are_acknowledged() {
    let mut stack = stack();
    let mut shared = Shared::new();
    let first = shared.next_pid();
    assert_eq!(first.get(), 2);
    shared.track_publish(first).unwrap();
    assert!(shared.is_inflight(first));
    assert_eq!(stack.select(&mut shared, Event::Sent { pid: 2 }), Ok(WOKEN));
    assert!(shared.is_inflight(first));
    assert_eq!(stack.select(&mut shared, puback(2)), Ok(WOKEN));
    assert!(!shared.is_inflight(first));
    // An acknowledgement that nobody waits for
    assert_eq!(stack.select(&mut shared, puback(2)), Ok(WOKEN));

    for n in 1..9 {
        assert_eq!(shared.track_publish(pid(n)), Ok(()));
    }
    assert_eq!(shared.track_publish(pid(9)), Err(Error::MaxInflight));
    assert_eq!(shared.track_publish(pid(8)), Ok(()));
}

#[test]
fn outgoing_exactly_once() {
    let mut stack = stack();
    let mut shared = Shared::new();
    shared.track_publish(pid(5)).unwrap();
    assert_eq!(
        stack.select(&mut shared, pubrec(5)),
        Ok(write(Reply::PubRel(pid(5)), true))
    );
    assert!(!shared.is_inflight(pid(5)));
    assert_eq!(
        stack.select(&mut shared, pubrec(5)),
        Err(StateError::Unsolicited(5))
    );
    assert_eq!(stack.select(&mut shared, pubcomp(5)), Ok(WOKEN));
    assert_eq!(stack.select(&mut shared, pubcomp(5)), Ok(NOTHING));
}

#[test]
fn incoming_exactly_once() {
    let mut stack = stack();
    let mut shared = Shared::new();
    assert_eq!(
        stack.select(&mut shared, pubrel(4)),
        Err(StateError::Unsolicited(4))
    );
    let buffered = Event::Buffered(QosPid::ExactlyOnce(pid(4)));
    assert_eq!(
        stack.select(&mut shared, buffered),
        Ok(write(Reply::PubRec(pid(4)), false))
    );
    assert_eq!(
        stack.select(&mut shared, pubrel(4)),
        Ok(write(Reply::PubComp(pid(4)), true))
    );
    assert_eq!(
        stack.select(&mut shared, pubrel(4)),
        Err(StateError::Unsolicited(4))
    );

    for n in 1..9 {
        let buffered = Event::Buffered(QosPid::ExactlyOnce(pid(n)));
        assert!(MqttStack::is_within_limits(&shared, &buffered));
        stack.select(&mut shared, buffered).unwrap();
    }
    let again = Event::Buffered(QosPid::ExactlyOnce(pid(8)));
    assert!(MqttStack::is_within_limits(&shared, &again));
    let more = Event::Buffered(QosPid::ExactlyOnce(pid(9)));
    assert!(!MqttStack::is_within_limits(&shared, &more));
}

#[test]
fn other_publications() {
    let mut stack = stack();
    let mut shared = Shared::new();
    assert_eq!(
        stack.select(&mut shared, Event::Buffered(QosPid::AtMostOnce)),
        Ok(NOTHING)
    );
    assert_eq!(
        stack.select(&mut shared, Event::Buffered(QosPid::AtLeastOnce(pid(3)))),
        Ok(write(Reply::PubAck(pid(3)), false))
    );
    assert_eq!(stack.select(&mut shared, Event::Discarded), Ok(NOTHING));

    // A publication is read to its end before it is answered
    let bytes = [0x30, 5, 0, 1, 0x61, 0, 9];
    let packet = ReceivedPacket::from_buffer(&bytes).unwrap();
    assert_eq!(
        stack.select(&mut shared, Event::Received(packet)),
        Ok(Outcome {
            action: Action::Buffer,
            wake_tx: false
        })
    );
}

#[test]
fn forgotten_acknowledgements_make_room() {
    let mut stack = stack();
    let mut shared = Shared::new();
    for n in 1..=MAX_SUBSCRIBERS as u16 {
        shared.await_sub_ack(pid(n)).unwrap();
    }
    assert_eq!(shared.await_sub_ack(pid(100)), Err(Error::TooManyClients));
    // Only what has been acknowledged is forgotten
    assert!(!shared.forget_acked(pid(1)));
    assert_eq!(stack.select(&mut shared, suback(1, &[0])), Ok(WOKEN));
    assert_eq!(shared.await_sub_ack(pid(100)), Err(Error::TooManyClients));
    assert!(shared.forget_acked(pid(1)));
    assert_eq!(shared.acked_codes(pid(1)), None);
    assert!(!shared.forget_acked(pid(1)));
    assert_eq!(shared.await_sub_ack(pid(100)), Ok(()));
}

#[test]
fn subscriptions_are_acknowledged() {
    let mut stack = stack();
    let mut shared = Shared::new();
    shared.await_sub_ack(pid(2)).unwrap();
    assert_eq!(shared.acked_codes(pid(2)), None);
    assert_eq!(stack.select(&mut shared, suback(3, &[0])), Ok(NOTHING));
    assert_eq!(stack.select(&mut shared, suback(2, &[1, 0x80])), Ok(WOKEN));
    assert_eq!(shared.acked_codes(pid(2)), Some(&[1u8, 0x80][..]));
    assert_eq!(stack.select(&mut shared, suback(2, &[0])), Ok(NOTHING));

    shared.await_unsub_ack(pid(3), true).unwrap();
    shared.await_unsub_ack(pid(4), false).unwrap();
    let codes = [
        UnsubAckReasonCode::Success,
        UnsubAckReasonCode::NoSubscriptionExisted,
    ];
    assert_eq!(stack.select(&mut shared, unsuback(3, &codes)), Ok(WOKEN));
    assert_eq!(shared.acked_codes(pid(3)), Some(&[0u8, 0x11][..]));
    assert_eq!(stack.select(&mut shared, unsuback(4, &codes)), Ok(WOKEN));
    assert_eq!(shared.acked_codes(pid(4)), None);
    assert_eq!(stack.select(&mut shared, unsuback(4, &codes)), Ok(NOTHING));

    // Too many codes
    shared.await_sub_ack(pid(9)).unwrap();
    assert!(!MqttStack::is_within_limits(
        &shared,
        &suback(9, &[0; 9])
    ));
    assert!(MqttStack::is_within_limits(&shared, &suback(1, &[0; 9])));
    for n in 10..15 {
        assert_eq!(shared.await_sub_ack(pid(n)), Ok(()));
    }
    assert_eq!(shared.await_sub_ack(pid(15)), Err(Error::TooManyClients));
    assert_eq!(
        shared.await_unsub_ack(pid(15), true),
        Err(Error::TooManyClients)
    );
}

#[test]
fn pings_are_answered_or_the_connection_is_lost() {
    let mut stack = stack();
    let mut shared = Shared::new();
    assert_eq!(
        stack.select(&mut shared, Event::KeepAlive),
        Ok(write(Reply::PingReq, false))
    );
    assert_eq!(
        stack.select(&mut shared, Event::KeepAlive),
        Err(StateError::AwaitPingResp)
    );
    assert_eq!(
        stack.select(&mut shared, Event::Received(ReceivedPacket::PingResp)),
        Ok(NOTHING)
    );
    assert_eq!(
        stack.select(&mut shared, Event::KeepAlive),
        Ok(write(Reply::PingReq, false))
    );
}

#[test]
fn receive_errors() {
    let mut stack = stack();
    let mut shared = Shared::new();
    let fatal = StateError::Io(ErrorKind::NotConnected);
    assert_eq!(
        stack.select(&mut shared, Event::ReceiveFailed(fatal)),
        Err(StateError::Io(ErrorKind::NotConnected))
    );
    assert_eq!(
        stack.select(
            &mut shared,
            Event::ReceiveFailed(StateError::Deserialization)
        ),
        Ok(NOTHING)
    );
    let bye = Disconnect::builder().build();
    assert_eq!(
        stack.select(
            &mut shared,
            Event::Received(ReceivedPacket::Disconnect(bye))
        ),
        Ok(NOTHING)
    );
}

#[test]
fn keep_alive_sleep() {
    let sleep = |last, interval, now| {
        MqttStack::calculate_keep_alive_sleep(
            Instant { micros: last },
            Duration { micros: interval },
            Instant { micros: now },
        )
    };
    assert_eq!(sleep(10, 30, 15), Duration { micros: 25 });
    assert_eq!(sleep(10, 30, 40), Duration { micros: 0 });
    assert_eq!(sleep(10, 30, 41), Duration { micros: 0 });
    let mut stack = stack();
    stack.acted(Instant { micros: 99 });
    assert_eq!(stack.last_network_action, Instant { micros: 99 });
}

#[test]
fn replies_on_the_wire() {
    let mut buf = [0u8; 16];
    for (reply, bytes) in [
        (Reply::PubAck(pid(0x102)), &[0x40u8, 2, 1, 2][..]),
        (Reply::PubRec(pid(0x102)), &[0x50, 2, 1, 2]),
        (Reply::PubRel(pid(0x102)), &[0x62, 2, 1, 2]),
        (Reply::PubComp(pid(0x102)), &[0x70, 2, 1, 2]),
        (Reply::PingReq, &[0xc0, 0]),
    ] {
        assert_eq!(encode_reply(&mut buf, reply), Ok(bytes));
    }
    assert_eq!(
        encode_reply(&mut [0u8; 3], Reply::PubAck(pid(1))),
        Err(StateError::Deserialization)
    );
}

#[test]
fn connect_and_disconnect_on_the_wire() {
    let mut buf = [0u8; 64];
    let mut stack = stack();
    assert_eq!(
        stack.encode_connect(&mut buf).unwrap(),
        &[
            0x10, 24, 0, 4, 0x4d, 0x51, 0x54, 0x54, 5, 2, 0, 60, 5, 17, 0, 0, 2, 0x58, 0, 6, 0x63,
            0x6c, 0x69, 0x65, 0x6e, 0x74
        ]
    );
    stack.config.last_will = Some(LastWill {
        topic: "w",
        data: b"m",
        qos: QoS::AtLeastOnce,
        retained: true,
        properties: Properties::default(),
    });
    stack.config.username = Some("u");
    stack.config.password = Some(b"p");
    stack.clean_start = false;
    let bytes = stack.encode_connect(&mut buf).unwrap();
    assert_eq!(bytes[9], 0xec);
    assert_eq!(
        &bytes[26..],
        &[0, 0, 1, 0x77, 0, 1, 0x6d, 0, 1, 0x75, 0, 1, 0x70]
    );
    assert_eq!(
        MqttStack::encode_disconnect(&mut buf).unwrap(),
        &[0xe0, 7, 0, 5, 17, 0, 0, 0, 0]
    );
}

#[test]
fn the_broker_answers_the_request_to_connect() {
    let mut stack = stack();
    // A keep alive interval of 30 s and QoS 1
    let block = [19, 0, 30, 36, 1];
    let answer = ConnAck {
        session_present: true,
        reason_code: ConnAckReasonCode::Success,
        properties: Properties::DataBlock(&block),
    };
    assert_eq!(
        stack.connect_mqtt(Ok(ReceivedPacket::ConnAck(answer.clone()))),
        Ok(true)
    );
    assert_eq!(stack.config.keepalive_interval, Duration::from_secs(30));
    assert_eq!(stack.config.max_qos, QoS::AtLeastOnce);
    assert!(!stack.clean_start);

    // The interval is not made longer again
    let longer = [19, 0, 90];
    let refusal = ConnAck {
        session_present: false,
        reason_code: ConnAckReasonCode::NotAuthorized,
        properties: Properties::DataBlock(&longer),
    };
    assert_eq!(
        stack.connect_mqtt(Ok(ReceivedPacket::ConnAck(refusal))),
        Err(ConnectionError::ConnectionRefused)
    );
    assert_eq!(stack.config.keepalive_interval, Duration::from_secs(30));
    assert_eq!(
        stack.connect_mqtt(Ok(ReceivedPacket::PingResp)),
        Err(ConnectionError::NotConnAck)
    );
    assert_eq!(
        stack.connect_mqtt(Err(StateError::Deserialization)),
        Err(ConnectionError::FlushTimeout)
    );
}

#[test]
fn running_with_backoff() {
    let mut stack = stack();
    let mut shared = Shared::new();
    let ready = |transport_connected| RunEvent::Ready {
        transport_connected,
    };
    assert_eq!(stack.run(&mut shared, ready(false)), RunAction::Connect);
    assert_eq!(
        stack.run(&mut shared, RunEvent::ConnectFailed),
        RunAction::AskBackoff(0)
    );
    let second = Duration::from_secs(1);
    assert_eq!(
        stack.run(&mut shared, RunEvent::Backoff(Some(second))),
        RunAction::Sleep(second)
    );
    assert_eq!(
        stack.run(&mut shared, RunEvent::ConnectFailed),
        RunAction::AskBackoff(1)
    );
    assert_eq!(
        stack.run(&mut shared, RunEvent::Backoff(None)),
        RunAction::Stop
    );
    assert_eq!(
        stack.run(
            &mut shared,
            RunEvent::Connected {
                session_present: false
            }
        ),
        RunAction::Select
    );
    assert_eq!(shared.connected, Some(false));
    assert_eq!(shared.clean_session_count, 1);
    assert_eq!(stack.run(&mut shared, ready(true)), RunAction::Select);
    assert_eq!(
        stack.run(&mut shared, RunEvent::Selected(Ok(()))),
        RunAction::Proceed
    );

    // An error ends the session
    shared.track_publish(pid(3)).unwrap();
    shared.await_sub_ack(pid(4)).unwrap();
    assert_eq!(
        stack.run(
            &mut shared,
            RunEvent::Selected(Err(StateError::AwaitPingResp))
        ),
        RunAction::Disconnect
    );
    assert_eq!(shared.connected, None);
    assert!(!shared.is_inflight(pid(3)));
    assert_eq!(stack.connect_attempts, 0);
}

#[test]
fn clean_sessions_are_counted() {
    let mut shared = Shared::new();
    assert!(shared.set_connected(Some(true)));
    assert_eq!(shared.clean_session_count, 0);
    assert!(shared.set_connected(Some(false)));
    assert_eq!(shared.clean_session_count, 1);
    assert!(!shared.set_connected(Some(false)));
    assert_eq!(shared.clean_session_count, 1);
    assert!(shared.set_connected(None));
    assert!(shared.set_connected(Some(false)));
    assert_eq!(shared.clean_session_count, 2);
    assert!(shared.reset());
    assert!(!shared.reset());
}
