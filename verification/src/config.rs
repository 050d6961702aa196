use vstd::prelude::*;

use crate::encoding::packets::LastWill;
use crate::encoding::utils::QoS;
use crate::time::Duration;

verus! {

/// How the client presents itself to the broker.
#[derive(Debug, Clone)]
pub struct Config<'a> {
    pub client_id: &'a str,
    pub keepalive_interval: Duration,
    pub username: Option<&'a str>,
    pub password: Option<&'a [u8]>,
    pub last_will: Option<LastWill<'a>>,
    pub max_qos: QoS,
}

} // verus!
