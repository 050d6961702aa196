use mqttrust::encoding::v4::connect::LastWill;
use mqttrust::encoding::QoS;
use mqttrust::options::MqttOptions;

#[test]
fn client_id() {
    let opts = MqttOptions::new("client_a");
    assert_eq!(opts.client_id(), "client_a");
}

#[test]
fn valid_client_ids() {
    assert!(MqttOptions::is_valid_client_id("client_a"));
    assert!(!MqttOptions::is_valid_client_id(" client_a"));
    assert!(!MqttOptions::is_valid_client_id(""));
}

#[test]
fn inflight() {
    let opts = MqttOptions::new("client_a");
    assert_eq!(opts.inflight(), 3);
    assert_eq!(opts.set_inflight(5).inflight(), 5);
}

#[test]
fn keep_alive_ms() {
    let opts = MqttOptions::new("client_a");
    assert_eq!(opts.keep_alive_ms(), 60_000);
    assert_eq!(opts.set_keep_alive(120).keep_alive_ms(), 120_000);
}

#[test]
fn last_will() {
    let opts = MqttOptions::new("client_a");
    assert_eq!(opts.last_will(), None);
    let will = LastWill {
        topic: "topic",
        message: b"Will message",
        qos: QoS::AtLeastOnce,
        retain: false,
    };
    assert_eq!(opts.set_last_will(will.clone()).last_will(), Some(will));
}

#[test]
fn clean_session() {
    let opts = MqttOptions::new("client_a");
    assert_eq!(opts.clean_session(), true);
    assert_eq!(opts.set_clean_session(false).clean_session(), false);
}

#[test]
fn credentials() {
    let opts = MqttOptions::new("client_a");
    assert_eq!(opts.credentials(), (None, None));
    assert_eq!(
        opts.set_credentials("some_user", &[]).credentials(),
        (Some("some_user"), Some(&b""[..]))
    );
}
