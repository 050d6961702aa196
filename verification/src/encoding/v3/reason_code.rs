use vstd::prelude::*;

verus! {

/// Subscribe acknowledgement reason codes for MQTTv3.
#[derive(Debug, Clone, Copy, PartialEq, Eq, PartialOrd, Structural)]
pub enum SubAckReasonCode {
    /// Success - Maximum QoS 0.
    SuccessMaxQoS0,
    /// Success - Maximum QoS 1.
    SuccessMaxQoS1,
    /// Success - Maximum QoS 2.
    SuccessMaxQoS2,
    /// Failure.
    Failure,
    /// The reason code is not one of the documented MQTT reason codes.
    Unknown,
}

impl SubAckReasonCode {
    /// The number that stands for the reason code on the wire.
    pub open spec fn code(self) -> u8 {
        match self {
            SubAckReasonCode::SuccessMaxQoS0 => 0x00,
            SubAckReasonCode::SuccessMaxQoS1 => 0x01,
            SubAckReasonCode::SuccessMaxQoS2 => 0x02,
            SubAckReasonCode::Failure => 0x80,
            SubAckReasonCode::Unknown => 0xff,
        }
    }

    /// The reason code that a number on the wire stands for.
    pub open spec fn of_code(code: u8) -> Self {
        match code {
            0x00 => SubAckReasonCode::SuccessMaxQoS0,
            0x01 => SubAckReasonCode::SuccessMaxQoS1,
            0x02 => SubAckReasonCode::SuccessMaxQoS2,
            0x80 => SubAckReasonCode::Failure,
            _ => SubAckReasonCode::Unknown,
        }
    }

    /// Decoding the number of a reason code gives the reason code back, and
    /// every number without a meaning of its own is read as `Unknown`.
    pub proof fn law_code_round_trip(reason: Self, code: u8)
        ensures
            Self::of_code(reason.code()) == reason,
            Self::of_code(code).code() != code ==> Self::of_code(code) == SubAckReasonCode::Unknown,
    {
    }

    /// The reason codes have the numbers that MQTT gives them.
    pub proof fn law_numbers()
        ensures
            SubAckReasonCode::SuccessMaxQoS0.code() == 0x00,
            SubAckReasonCode::SuccessMaxQoS1.code() == 0x01,
            SubAckReasonCode::SuccessMaxQoS2.code() == 0x02,
            SubAckReasonCode::Failure.code() == 0x80,
            SubAckReasonCode::Unknown.code() == 0xff,
    {
    }

    /// Whether the reason code reports success.
    pub fn success(&self) -> (ok: bool)
        ensures
            ok == (self.code() < 0x80),
    {
        let value: u8 = u8::from(*self);
        value < 0x80
    }
}

impl From<SubAckReasonCode> for u8 {
    fn from(reason: SubAckReasonCode) -> (code: u8) {
        match reason {
            SubAckReasonCode::SuccessMaxQoS0 => 0x00,
            SubAckReasonCode::SuccessMaxQoS1 => 0x01,
            SubAckReasonCode::SuccessMaxQoS2 => 0x02,
            SubAckReasonCode::Failure => 0x80,
            SubAckReasonCode::Unknown => 0xff,
        }
    }
}

impl vstd::std_specs::convert::FromSpecImpl<SubAckReasonCode> for u8 {
    open spec fn obeys_from_spec() -> bool {
        true
    }

    open spec fn from_spec(reason: SubAckReasonCode) -> u8 {
        reason.code()
    }
}

impl From<u8> for SubAckReasonCode {
    fn from(code: u8) -> (reason: SubAckReasonCode) {
        match code {
            0x00 => SubAckReasonCode::SuccessMaxQoS0,
            0x01 => SubAckReasonCode::SuccessMaxQoS1,
            0x02 => SubAckReasonCode::SuccessMaxQoS2,
            0x80 => SubAckReasonCode::Failure,
            _ => SubAckReasonCode::Unknown,
        }
    }
}

impl vstd::std_specs::convert::FromSpecImpl<u8> for SubAckReasonCode {
    open spec fn obeys_from_spec() -> bool {
        true
    }

    open spec fn from_spec(code: u8) -> SubAckReasonCode {
        SubAckReasonCode::of_code(code)
    }
}

/// Connect Return code.
#[derive(Debug, Clone, Copy, PartialEq, Eq, PartialOrd, Structural)]
pub enum ConnAckReasonCode {
    /// Connection accepted.
    ConnectionAccepted,
    /// Unacceptable protocol version.
    UnacceptableProtocolVersion,
    /// Identifier rejected.
    IdentifierRejected,
    /// Server unavailable.
    ServerUnavailable,
    /// Bad user name or password.
    BadUsernameOrPassword,
    /// Not authorized.
    NotAuthorized,
    /// The reason code is not one of the documented MQTT reason codes.
    Unknown,
}

impl ConnAckReasonCode {
    /// The number that stands for the reason code on the wire.
    pub open spec fn code(self) -> u8 {
        match self {
            ConnAckReasonCode::ConnectionAccepted => 0x00,
            ConnAckReasonCode::UnacceptableProtocolVersion => 0x01,
            ConnAckReasonCode::IdentifierRejected => 0x02,
            ConnAckReasonCode::ServerUnavailable => 0x03,
            ConnAckReasonCode::BadUsernameOrPassword => 0x04,
            ConnAckReasonCode::NotAuthorized => 0x05,
            ConnAckReasonCode::Unknown => 0xff,
        }
    }

    /// The reason code that a number on the wire stands for.
    pub open spec fn of_code(code: u8) -> Self {
        match code {
            0x00 => ConnAckReasonCode::ConnectionAccepted,
            0x01 => ConnAckReasonCode::UnacceptableProtocolVersion,
            0x02 => ConnAckReasonCode::IdentifierRejected,
            0x03 => ConnAckReasonCode::ServerUnavailable,
            0x04 => ConnAckReasonCode::BadUsernameOrPassword,
            0x05 => ConnAckReasonCode::NotAuthorized,
            _ => ConnAckReasonCode::Unknown,
        }
    }

    /// Decoding the number of a reason code gives the reason code back, and
    /// every number without a meaning of its own is read as `Unknown`.
    pub proof fn law_code_round_trip(reason: Self, code: u8)
        ensures
            Self::of_code(reason.code()) == reason,
            Self::of_code(code).code() != code ==> Self::of_code(code) == ConnAckReasonCode::Unknown,
    {
    }

    /// The reason codes have the numbers that MQTT gives them.
    pub proof fn law_numbers()
        ensures
            ConnAckReasonCode::ConnectionAccepted.code() == 0x00,
            ConnAckReasonCode::UnacceptableProtocolVersion.code() == 0x01,
            ConnAckReasonCode::IdentifierRejected.code() == 0x02,
            ConnAckReasonCode::ServerUnavailable.code() == 0x03,
            ConnAckReasonCode::BadUsernameOrPassword.code() == 0x04,
            ConnAckReasonCode::NotAuthorized.code() == 0x05,
            ConnAckReasonCode::Unknown.code() == 0xff,
    {
    }

    /// Whether the reason code reports success.
    pub fn success(&self) -> (ok: bool)
        ensures
            ok == (*self == ConnAckReasonCode::ConnectionAccepted),
    {
        matches!(self, Self::ConnectionAccepted)
    }
}

impl From<ConnAckReasonCode> for u8 {
    fn from(reason: ConnAckReasonCode) -> (code: u8) {
        match reason {
            ConnAckReasonCode::ConnectionAccepted => 0x00,
            ConnAckReasonCode::UnacceptableProtocolVersion => 0x01,
            ConnAckReasonCode::IdentifierRejected => 0x02,
            ConnAckReasonCode::ServerUnavailable => 0x03,
            ConnAckReasonCode::BadUsernameOrPassword => 0x04,
            ConnAckReasonCode::NotAuthorized => 0x05,
            ConnAckReasonCode::Unknown => 0xff,
        }
    }
}

impl vstd::std_specs::convert::FromSpecImpl<ConnAckReasonCode> for u8 {
    open spec fn obeys_from_spec() -> bool {
        true
    }

    open spec fn from_spec(reason: ConnAckReasonCode) -> u8 {
        reason.code()
    }
}

impl From<u8> for ConnAckReasonCode {
    fn from(code: u8) -> (reason: ConnAckReasonCode) {
        match code {
            0x00 => ConnAckReasonCode::ConnectionAccepted,
            0x01 => ConnAckReasonCode::UnacceptableProtocolVersion,
            0x02 => ConnAckReasonCode::IdentifierRejected,
            0x03 => ConnAckReasonCode::ServerUnavailable,
            0x04 => ConnAckReasonCode::BadUsernameOrPassword,
            0x05 => ConnAckReasonCode::NotAuthorized,
            _ => ConnAckReasonCode::Unknown,
        }
    }
}

impl vstd::std_specs::convert::FromSpecImpl<u8> for ConnAckReasonCode {
    open spec fn obeys_from_spec() -> bool {
        true
    }

    open spec fn from_spec(code: u8) -> ConnAckReasonCode {
        ConnAckReasonCode::of_code(code)
    }
}

/// Disconnect reason codes for MQTTv3.
#[derive(Debug, Clone, Copy, PartialEq, Eq, PartialOrd, Structural)]
pub enum DisconnectReasonCode {
    /// Normal disconnection.
    Normal,
}

impl DisconnectReasonCode {
    /// The number that stands for the reason code on the wire.
    pub open spec fn code(self) -> u8 {
        match self {
            DisconnectReasonCode::Normal => 0x00,
        }
    }

    /// The reason code that a number on the wire stands for.
    pub open spec fn of_code(code: u8) -> Self {
        match code {
            _ => DisconnectReasonCode::Normal,
        }
    }

    /// Decoding the number of a reason code gives the reason code back, and
    /// every number without a meaning of its own is read as `Normal`.
    pub proof fn law_code_round_trip(reason: Self, code: u8)
        ensures
            Self::of_code(reason.code()) == reason,
            Self::of_code(code).code() != code ==> Self::of_code(code) == DisconnectReasonCode::Normal,
    {
    }

    /// The reason codes have the numbers that MQTT gives them.
    pub proof fn law_numbers()
        ensures
            DisconnectReasonCode::Normal.code() == 0x00,
    {
    }
}

impl From<DisconnectReasonCode> for u8 {
    fn from(reason: DisconnectReasonCode) -> (code: u8) {
        match reason {
            DisconnectReasonCode::Normal => 0x00,
        }
    }
}

impl vstd::std_specs::convert::FromSpecImpl<DisconnectReasonCode> for u8 {
    open spec fn obeys_from_spec() -> bool {
        true
    }

    open spec fn from_spec(reason: DisconnectReasonCode) -> u8 {
        reason.code()
    }
}

impl From<u8> for DisconnectReasonCode {
    fn from(code: u8) -> (reason: DisconnectReasonCode) {
        match code {
            _ => DisconnectReasonCode::Normal,
        }
    }
}

impl vstd::std_specs::convert::FromSpecImpl<u8> for DisconnectReasonCode {
    open spec fn obeys_from_spec() -> bool {
        true
    }

    open spec fn from_spec(code: u8) -> DisconnectReasonCode {
        DisconnectReasonCode::of_code(code)
    }
}

impl Default for DisconnectReasonCode {
    fn default() -> (reason: DisconnectReasonCode)
        ensures
            reason == DisconnectReasonCode::Normal,
    {
        DisconnectReasonCode::Normal
    }
}

/// A connection is made if and only if it is accepted, and a subscription unless
/// its number says otherwise.
pub proof fn law_reasons_report_success(
    connack: ConnAckReasonCode,
    suback: SubAckReasonCode,
    told: (bool, bool),
)
    requires
        call_ensures(ConnAckReasonCode::success, (&connack,), told.0),
        call_ensures(SubAckReasonCode::success, (&suback,), told.1),
    ensures
        told.0 <==> connack.code() == 0,
        told.1 <==> suback.code() < 128,
{
}

} // verus!
