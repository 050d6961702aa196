use vstd::prelude::*;
use vstd::string::StringSliceAdditionalSpecFns;

use crate::encoding::v4::LastWill;

verus! {

/// Options to configure the behaviour of mqtt connection
#[derive(Clone, Debug)]
pub struct MqttOptions<'a> {
    /// keep alive time to send pingreq to broker when the connection is idle
    keep_alive_ms: u32,
    /// clean (or) persistent session
    clean_session: bool,
    /// client identifier
    client_id: &'a str,
    /// username and password
    credentials: Option<(&'a str, &'a [u8])>,
    /// maximum number of outgoing inflight messages
    inflight: usize,
    /// Last will that will be issued on unexpected disconnect
    last_will: Option<LastWill<'a>>,
}

/// What the options are set to.
pub ghost struct OptionsView<'a> {
    pub keep_alive_ms: u32,
    pub clean_session: bool,
    pub client_id: &'a str,
    pub credentials: Option<(&'a str, &'a [u8])>,
    pub inflight: usize,
    pub last_will: Option<LastWill<'a>>,
}

impl<'a> View for MqttOptions<'a> {
    type V = OptionsView<'a>;

    closed spec fn view(&self) -> OptionsView<'a> {
        OptionsView {
            keep_alive_ms: self.keep_alive_ms,
            clean_session: self.clean_session,
            client_id: self.client_id,
            credentials: self.credentials,
            inflight: self.inflight,
            last_will: self.last_will,
        }
    }
}

impl<'a> MqttOptions<'a> {
    /// New mqtt options. The client identifier is not empty and does not start
    /// with a space.
    pub fn new(id: &'a str) -> (options: MqttOptions<'a>)
        requires
            id.spec_bytes().len() > 0,
            id.spec_bytes()[0] != 0x20,
        ensures
            options@ == (OptionsView {
                keep_alive_ms: 60_000,
                clean_session: true,
                client_id: id,
                credentials: None,
                inflight: 3,
                last_will: None,
            }),
    {
        MqttOptions {
            keep_alive_ms: 60_000,
            clean_session: true,
            client_id: id,
            credentials: None,
            inflight: 3,
            last_will: None,
        }
    }

    /// Returns whether a client identifier is one that options can be made with.
    pub fn is_valid_client_id(id: &str) -> (valid: bool)
        ensures
            valid == (id.spec_bytes().len() > 0 && id.spec_bytes()[0] != 0x20),
    {
        let bytes: &[u8] = id.as_bytes();
        bytes.len() > 0 && bytes[0] != 0x20
    }

    pub fn set_last_will(self, will: LastWill<'a>) -> (options: Self)
        ensures
            options@ == (OptionsView { last_will: Some(will), ..self@ }),
    {
        MqttOptions { last_will: Some(will), ..self }
    }

    pub fn last_will(&self) -> (will: Option<LastWill<'a>>)
        ensures
            will == self@.last_will,
    {
        self.last_will
    }

    /// Set number of seconds after which client should ping the broker
    /// if there is no other data exchange. Keep alives should be >= 5 secs.
    pub fn set_keep_alive(self, secs: u16) -> (options: Self)
        requires
            secs >= 5,
        ensures
            options@ == (OptionsView { keep_alive_ms: (secs * 1000) as u32, ..self@ }),
    {
        MqttOptions { keep_alive_ms: secs as u32 * 1000, ..self }
    }

    /// Keep alive time
    pub fn keep_alive_ms(&self) -> (ms: u32)
        ensures
            ms == self@.keep_alive_ms,
    {
        self.keep_alive_ms
    }

    /// Client identifier
    pub fn client_id(&self) -> (id: &'a str)
        ensures
            id == self@.client_id,
    {
        self.client_id
    }

    /// `clean_session = true` removes all the state from queues & instructs the broker
    /// to clean all the client state when client disconnects.
    ///
    /// When set `false`, broker will hold the client state and performs pending
    /// operations on the client when reconnection with same `client_id`
    /// happens. Local queue state is also held to retransmit packets after reconnection.
    pub fn set_clean_session(self, clean_session: bool) -> (options: Self)
        ensures
            options@ == (OptionsView { clean_session, ..self@ }),
    {
        MqttOptions { clean_session, ..self }
    }

    /// Clean session
    pub fn clean_session(&self) -> (clean_session: bool)
        ensures
            clean_session == self@.clean_session,
    {
        self.clean_session
    }

    /// Username and password
    pub fn set_credentials(self, username: &'a str, password: &'a [u8]) -> (options: Self)
        ensures
            options@ == (OptionsView { credentials: Some((username, password)), ..self@ }),
    {
        MqttOptions { credentials: Some((username, password)), ..self }
    }

    /// Security options
    pub fn credentials(&self) -> (credentials: (Option<&'a str>, Option<&'a [u8]>))
        ensures
            credentials == match self@.credentials {
                Some((username, password)) => (Some(username), Some(password)),
                None => (None, None),
            },
    {
        if let Some((username, password)) = self.credentials {
            (Some(username), Some(password))
        } else {
            (None, None)
        }
    }

    /// Set number of concurrent in flight messages. Zero in flight is not allowed.
    pub fn set_inflight(self, inflight: usize) -> (options: Self)
        requires
            inflight > 0,
        ensures
            options@ == (OptionsView { inflight, ..self@ }),
    {
        MqttOptions { inflight, ..self }
    }

    /// Number of concurrent in flight messages
    pub fn inflight(&self) -> (inflight: usize)
        ensures
            inflight == self@.inflight,
    {
        self.inflight
    }
}

/// New options have a keep alive time of a minute, a clean session and room for
/// three messages in flight, and neither credentials nor a last will.
pub proof fn law_new_options<'a>(id: &'a str, options: MqttOptions<'a>)
    requires
        call_ensures(MqttOptions::<'a>::new, (id,), options),
    ensures
        options@.client_id == id,
        options@.keep_alive_ms == 60 * 1000,
        options@.clean_session,
        options@.inflight == 3,
        options@.credentials is None,
        options@.last_will is None,
{
}

/// Setting an option changes that option alone.
pub proof fn law_options_are_set_one_by_one<'a>(
    options: MqttOptions<'a>,
    will: LastWill<'a>,
    secs: u16,
    clean_session: bool,
    username: &'a str,
    password: &'a [u8],
    inflight: usize,
    set: MqttOptions<'a>,
)
    ensures
        call_ensures(MqttOptions::<'a>::set_last_will, (options, will), set) ==> {
            &&& set@.last_will == Some(will)
            &&& set@.keep_alive_ms == options@.keep_alive_ms
            &&& set@.clean_session == options@.clean_session
            &&& set@.client_id == options@.client_id
            &&& set@.credentials == options@.credentials
            &&& set@.inflight == options@.inflight
        },
        call_ensures(MqttOptions::<'a>::set_keep_alive, (options, secs), set) ==> {
            &&& set@.keep_alive_ms == 1000 * secs
            &&& set@.last_will == options@.last_will
            &&& set@.clean_session == options@.clean_session
            &&& set@.client_id == options@.client_id
            &&& set@.credentials == options@.credentials
            &&& set@.inflight == options@.inflight
        },
        call_ensures(MqttOptions::<'a>::set_clean_session, (options, clean_session), set) ==> {
            &&& set@.clean_session == clean_session
            &&& set@.last_will == options@.last_will
            &&& set@.keep_alive_ms == options@.keep_alive_ms
            &&& set@.client_id == options@.client_id
            &&& set@.credentials == options@.credentials
            &&& set@.inflight == options@.inflight
        },
        call_ensures(MqttOptions::<'a>::set_credentials, (options, username, password), set) ==> {
            &&& set@.credentials == Some((username, password))
            &&& set@.last_will == options@.last_will
            &&& set@.keep_alive_ms == options@.keep_alive_ms
            &&& set@.clean_session == options@.clean_session
            &&& set@.client_id == options@.client_id
            &&& set@.inflight == options@.inflight
        },
        call_ensures(MqttOptions::<'a>::set_inflight, (options, inflight), set) ==> {
            &&& set@.inflight == inflight
            &&& set@.last_will == options@.last_will
            &&& set@.keep_alive_ms == options@.keep_alive_ms
            &&& set@.clean_session == options@.clean_session
            &&& set@.client_id == options@.client_id
            &&& set@.credentials == options@.credentials
        },
{
}

/// Each option is read as it was set.
pub proof fn law_options_are_read_as_set<'a>(
    options: MqttOptions<'a>,
    will: LastWill<'a>,
    secs: u16,
    clean_session: bool,
    username: &'a str,
    password: &'a [u8],
    inflight: usize,
    set: MqttOptions<'a>,
    last_will: Option<LastWill<'a>>,
    ms: u32,
    clean: bool,
    credentials: (Option<&'a str>, Option<&'a [u8]>),
    number: usize,
)
    requires
        call_ensures(MqttOptions::<'a>::last_will, (&set,), last_will),
        call_ensures(MqttOptions::<'a>::keep_alive_ms, (&set,), ms),
        call_ensures(MqttOptions::<'a>::clean_session, (&set,), clean),
        call_ensures(MqttOptions::<'a>::credentials, (&set,), credentials),
        call_ensures(MqttOptions::<'a>::inflight, (&set,), number),
    ensures
        call_ensures(MqttOptions::<'a>::set_last_will, (options, will), set) ==> last_will == Some(
            will,
        ),
        call_ensures(MqttOptions::<'a>::set_keep_alive, (options, secs), set) ==> ms == 1000 * secs,
        call_ensures(MqttOptions::<'a>::set_clean_session, (options, clean_session), set) ==> clean
            == clean_session,
        call_ensures(MqttOptions::<'a>::set_credentials, (options, username, password), set)
            ==> credentials == (Some(username), Some(password)),
        set@.credentials is None ==> credentials == (None::<&'a str>, None::<&'a [u8]>),
        call_ensures(MqttOptions::<'a>::set_inflight, (options, inflight), set) ==> number
            == inflight,
{
}

/// A client identifier is valid if and only if it has a first byte and that is
/// no space.
pub proof fn law_valid_client_ids(id: &str, valid: bool)
    requires
        call_ensures(MqttOptions::is_valid_client_id, (id,), valid),
    ensures
        id.spec_bytes().len() == 0 ==> !valid,
        id.spec_bytes().len() > 0 ==> (valid <==> id.spec_bytes()[0] != 32),
{
}

} // verus!
