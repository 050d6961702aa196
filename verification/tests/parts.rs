use mqttrust::clients::{ClientHandle, ClientSet, Runner};
use mqttrust::encoding::QoS;
use mqttrust::error::Error;
use mqttrust::exp::Pid;
use mqttrust::pubsub::wakers::{register, Registration};
use mqttrust::requests::{PublishPayload, PublishRequest, Request};
use mqttrust::time::Duration;
use mqttrust::transport::{Pool, TlsState};

#[test]
fn clients_get_the_first_free_slot() {
    let mut clients = ClientSet::new(2);
    assert_eq!(clients.next_client_id(), Ok(0));
    assert_eq!(clients.add("a"), ClientHandle(0));
    assert_eq!(clients.add("b"), ClientHandle(1));
    assert_eq!(clients.next_client_id(), Err(Error::TooManyClients));
    assert_eq!(*clients.get(ClientHandle(1)), "b");
}

#[test]
fn messages_go_to_those_who_listen() {
    let mut runner = Runner::new(3);
    let topics = |names: &[&str]| names.iter().map(|n| n.to_string()).collect::<Vec<_>>();
    assert_eq!(runner.client(topics(&["a", "b"])), Ok(0));
    assert_eq!(runner.client(topics(&[])), Ok(1));
    assert_eq!(runner.client(topics(&["b"])), Ok(2));
    assert_eq!(runner.client(topics(&["a"])), Err(Error::TooManyClients));
    assert_eq!(runner.recipients("b"), vec![0, 2]);
    assert_eq!(runner.recipients("a"), vec![0]);
    assert_eq!(runner.recipients("ab"), Vec::<u8>::new());
}

#[test]
fn packet_identifiers_wrap_around() {
    let mut pid = Pid::new();
    assert_eq!(pid.next(), 0);
    assert_eq!(pid.next(), 1);
    for _ in 2..=u16::MAX {
        pid.next();
    }
    assert_eq!(pid.next(), 1);
}

#[test]
fn wakers_are_registered_once() {
    assert_eq!(register(true, 2, 2), Registration::Known);
    assert_eq!(register(false, 1, 2), Registration::Push);
    assert_eq!(register(false, 2, 2), Registration::WakeAllAndPush);
}

#[test]
fn publish_requests() {
    let request = PublishRequest::new("topic".to_string(), vec![1u8, 2, 3]).qos(QoS::ExactlyOnce);
    assert!(!request.dup && !request.retain);
    assert_eq!(request.qos, QoS::ExactlyOnce);
    let mut buf = [9u8; 4];
    assert_eq!(request.payload.as_bytes(&mut buf), Ok(3));
    assert_eq!(buf, [1, 2, 3, 9]);
    assert_eq!(request.payload.as_bytes(&mut [0u8; 2]), Err(()));
    assert_eq!(<Vec<u8> as PublishPayload>::from_bytes(&[4, 5]), vec![4, 5]);
    assert!(matches!(Request::from(request), Request::Publish(_)));
}

#[test]
fn pools_hand_out_each_buffer_once() {
    let mut pool: Pool<2> = Pool::new();
    assert_eq!(pool.allocate(), Some(0));
    assert_eq!(pool.allocate(), Some(1));
    assert_eq!(pool.allocate(), None);
    pool.free(0);
    assert_eq!(pool.allocate(), Some(0));
    let mut state: TlsState<4, 2> = TlsState::new();
    assert_eq!(state.pool.allocate(), Some(0));
    assert_eq!((state.rx.len(), state.tx.len()), (4, 2));
}

#[test]
fn durations() {
    assert_eq!(Duration::from_secs(2).micros, 2_000_000);
    assert_eq!(Duration { micros: 2_999_999 }.as_secs(), 2);
}
