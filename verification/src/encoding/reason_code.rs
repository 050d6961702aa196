use vstd::prelude::*;

verus! {

/// MQTTv5-defined codes that may be returned in response to control packets.
#[derive(Debug, Clone, Copy, PartialEq, Eq, PartialOrd, Structural)]
pub enum ConnAckReasonCode {
    /// Connection accepted.
    Success,
    /// Unspecified error.
    UnspecifiedError,
    /// Malformed packet.
    MalformedPacket,
    /// Protocol error.
    ProtocolError,
    /// Implementation-specific error.
    ImplementationError,
    /// Unsupported protocol version.
    UnsupportedProtocol,
    /// Client identifier not valid.
    ClientIdentifierInvalid,
    /// Bad user name or password.
    BadUsernameOrPassword,
    /// Not authorized.
    NotAuthorized,
    /// Server unavailable.
    ServerUnavailable,
    /// Server busy.
    ServerBusy,
    /// Banned.
    Banned,
    /// Bad authentication method.
    BadAuthMethod,
    /// Topic name invalid.
    TopicNameInvalid,
    /// Packet too large.
    PacketTooLarge,
    /// Message rate too high.
    MessageRateTooHigh,
    /// Quota exceeded.
    QuotaExceeded,
    /// Payload format invalid.
    PayloadFormatInvalid,
    /// Retain not supported.
    RetainNotSupported,
    /// QoS not supported.
    QosNotSupported,
    /// Use another server.
    UseAnotherServer,
    /// Server moved.
    ServerMoved,
    /// Connection rate exceeded.
    ConnectionRateExceeded,
    /// The reason code is not one of the documented MQTT reason codes.
    Unknown,
}

impl ConnAckReasonCode {
    /// The number that stands for the reason code on the wire.
    pub open spec fn code(self) -> u8 {
        match self {
            ConnAckReasonCode::Success => 0x00,
            ConnAckReasonCode::UnspecifiedError => 0x80,
            ConnAckReasonCode::MalformedPacket => 0x81,
            ConnAckReasonCode::ProtocolError => 0x82,
            ConnAckReasonCode::ImplementationError => 0x83,
            ConnAckReasonCode::UnsupportedProtocol => 0x84,
            ConnAckReasonCode::ClientIdentifierInvalid => 0x85,
            ConnAckReasonCode::BadUsernameOrPassword => 0x86,
            ConnAckReasonCode::NotAuthorized => 0x87,
            ConnAckReasonCode::ServerUnavailable => 0x88,
            ConnAckReasonCode::ServerBusy => 0x89,
            ConnAckReasonCode::Banned => 0x8a,
            ConnAckReasonCode::BadAuthMethod => 0x8c,
            ConnAckReasonCode::TopicNameInvalid => 0x90,
            ConnAckReasonCode::PacketTooLarge => 0x95,
            ConnAckReasonCode::MessageRateTooHigh => 0x96,
            ConnAckReasonCode::QuotaExceeded => 0x97,
            ConnAckReasonCode::PayloadFormatInvalid => 0x99,
            ConnAckReasonCode::RetainNotSupported => 0x9a,
            ConnAckReasonCode::QosNotSupported => 0x9b,
            ConnAckReasonCode::UseAnotherServer => 0x9c,
            ConnAckReasonCode::ServerMoved => 0x9d,
            ConnAckReasonCode::ConnectionRateExceeded => 0x9f,
            ConnAckReasonCode::Unknown => 0xff,
        }
    }

    /// The reason code that a number on the wire stands for.
    pub open spec fn of_code(code: u8) -> Self {
        match code {
            0x00 => ConnAckReasonCode::Success,
            0x80 => ConnAckReasonCode::UnspecifiedError,
            0x81 => ConnAckReasonCode::MalformedPacket,
            0x82 => ConnAckReasonCode::ProtocolError,
            0x83 => ConnAckReasonCode::ImplementationError,
            0x84 => ConnAckReasonCode::UnsupportedProtocol,
            0x85 => ConnAckReasonCode::ClientIdentifierInvalid,
            0x86 => ConnAckReasonCode::BadUsernameOrPassword,
            0x87 => ConnAckReasonCode::NotAuthorized,
            0x88 => ConnAckReasonCode::ServerUnavailable,
            0x89 => ConnAckReasonCode::ServerBusy,
            0x8a => ConnAckReasonCode::Banned,
            0x8c => ConnAckReasonCode::BadAuthMethod,
            0x90 => ConnAckReasonCode::TopicNameInvalid,
            0x95 => ConnAckReasonCode::PacketTooLarge,
            0x96 => ConnAckReasonCode::MessageRateTooHigh,
            0x97 => ConnAckReasonCode::QuotaExceeded,
            0x99 => ConnAckReasonCode::PayloadFormatInvalid,
            0x9a => ConnAckReasonCode::RetainNotSupported,
            0x9b => ConnAckReasonCode::QosNotSupported,
            0x9c => ConnAckReasonCode::UseAnotherServer,
            0x9d => ConnAckReasonCode::ServerMoved,
            0x9f => ConnAckReasonCode::ConnectionRateExceeded,
            _ => ConnAckReasonCode::Unknown,
        }
    }

    /// Decoding the number of a reason code gives the reason code back, and
    /// every number without a meaning of its own is read as `Unknown`.
    pub proof fn law_code_round_trip(reason: Self, code: u8)
        ensures
            Self::of_code(reason.code()) == reason,
            Self::of_code(code).code() != code ==> Self::of_code(code) == ConnAckReasonCode::Unknown,
    {
    }

    /// The reason codes have the numbers that MQTT gives them.
    pub proof fn law_numbers()
        ensures
            ConnAckReasonCode::Success.code() == 0x00,
            ConnAckReasonCode::UnspecifiedError.code() == 0x80,
            ConnAckReasonCode::MalformedPacket.code() == 0x81,
            ConnAckReasonCode::ProtocolError.code() == 0x82,
            ConnAckReasonCode::ImplementationError.code() == 0x83,
            ConnAckReasonCode::UnsupportedProtocol.code() == 0x84,
            ConnAckReasonCode::ClientIdentifierInvalid.code() == 0x85,
            ConnAckReasonCode::BadUsernameOrPassword.code() == 0x86,
            ConnAckReasonCode::NotAuthorized.code() == 0x87,
            ConnAckReasonCode::ServerUnavailable.code() == 0x88,
            ConnAckReasonCode::ServerBusy.code() == 0x89,
            ConnAckReasonCode::Banned.code() == 0x8a,
            ConnAckReasonCode::BadAuthMethod.code() == 0x8c,
            ConnAckReasonCode::TopicNameInvalid.code() == 0x90,
            ConnAckReasonCode::PacketTooLarge.code() == 0x95,
            ConnAckReasonCode::MessageRateTooHigh.code() == 0x96,
            ConnAckReasonCode::QuotaExceeded.code() == 0x97,
            ConnAckReasonCode::PayloadFormatInvalid.code() == 0x99,
            ConnAckReasonCode::RetainNotSupported.code() == 0x9a,
            ConnAckReasonCode::QosNotSupported.code() == 0x9b,
            ConnAckReasonCode::UseAnotherServer.code() == 0x9c,
            ConnAckReasonCode::ServerMoved.code() == 0x9d,
            ConnAckReasonCode::ConnectionRateExceeded.code() == 0x9f,
            ConnAckReasonCode::Unknown.code() == 0xff,
    {
    }

    /// Whether the reason code reports success.
    pub fn success(&self) -> (ok: bool)
        ensures
            ok == (self.code() < 0x80),
    {
        let value: u8 = u8::from(*self);
        value < 0x80
    }
}

impl From<ConnAckReasonCode> for u8 {
    fn from(reason: ConnAckReasonCode) -> (code: u8) {
        match reason {
            ConnAckReasonCode::Success => 0x00,
            ConnAckReasonCode::UnspecifiedError => 0x80,
            ConnAckReasonCode::MalformedPacket => 0x81,
            ConnAckReasonCode::ProtocolError => 0x82,
            ConnAckReasonCode::ImplementationError => 0x83,
            ConnAckReasonCode::UnsupportedProtocol => 0x84,
            ConnAckReasonCode::ClientIdentifierInvalid => 0x85,
            ConnAckReasonCode::BadUsernameOrPassword => 0x86,
            ConnAckReasonCode::NotAuthorized => 0x87,
            ConnAckReasonCode::ServerUnavailable => 0x88,
            ConnAckReasonCode::ServerBusy => 0x89,
            ConnAckReasonCode::Banned => 0x8a,
            ConnAckReasonCode::BadAuthMethod => 0x8c,
            ConnAckReasonCode::TopicNameInvalid => 0x90,
            ConnAckReasonCode::PacketTooLarge => 0x95,
            ConnAckReasonCode::MessageRateTooHigh => 0x96,
            ConnAckReasonCode::QuotaExceeded => 0x97,
            ConnAckReasonCode::PayloadFormatInvalid => 0x99,
            ConnAckReasonCode::RetainNotSupported => 0x9a,
            ConnAckReasonCode::QosNotSupported => 0x9b,
            ConnAckReasonCode::UseAnotherServer => 0x9c,
            ConnAckReasonCode::ServerMoved => 0x9d,
            ConnAckReasonCode::ConnectionRateExceeded => 0x9f,
            ConnAckReasonCode::Unknown => 0xff,
        }
    }
}

impl vstd::std_specs::convert::FromSpecImpl<ConnAckReasonCode> for u8 {
    open spec fn obeys_from_spec() -> bool {
        true
    }

    open spec fn from_spec(reason: ConnAckReasonCode) -> u8 {
        reason.code()
    }
}

impl From<u8> for ConnAckReasonCode {
    fn from(code: u8) -> (reason: ConnAckReasonCode) {
        match code {
            0x00 => ConnAckReasonCode::Success,
            0x80 => ConnAckReasonCode::UnspecifiedError,
            0x81 => ConnAckReasonCode::MalformedPacket,
            0x82 => ConnAckReasonCode::ProtocolError,
            0x83 => ConnAckReasonCode::ImplementationError,
            0x84 => ConnAckReasonCode::UnsupportedProtocol,
            0x85 => ConnAckReasonCode::ClientIdentifierInvalid,
            0x86 => ConnAckReasonCode::BadUsernameOrPassword,
            0x87 => ConnAckReasonCode::NotAuthorized,
            0x88 => ConnAckReasonCode::ServerUnavailable,
            0x89 => ConnAckReasonCode::ServerBusy,
            0x8a => ConnAckReasonCode::Banned,
            0x8c => ConnAckReasonCode::BadAuthMethod,
            0x90 => ConnAckReasonCode::TopicNameInvalid,
            0x95 => ConnAckReasonCode::PacketTooLarge,
            0x96 => ConnAckReasonCode::MessageRateTooHigh,
            0x97 => ConnAckReasonCode::QuotaExceeded,
            0x99 => ConnAckReasonCode::PayloadFormatInvalid,
            0x9a => ConnAckReasonCode::RetainNotSupported,
            0x9b => ConnAckReasonCode::QosNotSupported,
            0x9c => ConnAckReasonCode::UseAnotherServer,
            0x9d => ConnAckReasonCode::ServerMoved,
            0x9f => ConnAckReasonCode::ConnectionRateExceeded,
            _ => ConnAckReasonCode::Unknown,
        }
    }
}

impl vstd::std_specs::convert::FromSpecImpl<u8> for ConnAckReasonCode {
    open spec fn obeys_from_spec() -> bool {
        true
    }

    open spec fn from_spec(code: u8) -> ConnAckReasonCode {
        ConnAckReasonCode::of_code(code)
    }
}

/// Publish acknowledge (PUBACK) reason codes.
#[derive(Debug, Clone, Copy, PartialEq, Eq, PartialOrd, Structural)]
pub enum PubAckReasonCode {
    /// Success.
    Success,
    /// No matching subscribers.
    NoMatchingSubscribers,
    /// Unspecified error.
    UnspecifiedError,
    /// Implementation-specific error.
    ImplementationError,
    /// Not authorized.
    NotAuthorized,
    /// Topic name invalid.
    TopicNameInvalid,
    /// Packet identifier in use.
    PacketIdInUse,
    /// Quota exceeded.
    QuotaExceeded,
    /// Payload format invalid.
    PayloadFormatInvalid,
    /// The reason code is not one of the documented MQTT reason codes.
    Unknown,
}

impl PubAckReasonCode {
    /// The number that stands for the reason code on the wire.
    pub open spec fn code(self) -> u8 {
        match self {
            PubAckReasonCode::Success => 0x00,
            PubAckReasonCode::NoMatchingSubscribers => 0x10,
            PubAckReasonCode::UnspecifiedError => 0x80,
            PubAckReasonCode::ImplementationError => 0x83,
            PubAckReasonCode::NotAuthorized => 0x87,
            PubAckReasonCode::TopicNameInvalid => 0x90,
            PubAckReasonCode::PacketIdInUse => 0x91,
            PubAckReasonCode::QuotaExceeded => 0x97,
            PubAckReasonCode::PayloadFormatInvalid => 0x99,
            PubAckReasonCode::Unknown => 0xff,
        }
    }

    /// The reason code that a number on the wire stands for.
    pub open spec fn of_code(code: u8) -> Self {
        match code {
            0x00 => PubAckReasonCode::Success,
            0x10 => PubAckReasonCode::NoMatchingSubscribers,
            0x80 => PubAckReasonCode::UnspecifiedError,
            0x83 => PubAckReasonCode::ImplementationError,
            0x87 => PubAckReasonCode::NotAuthorized,
            0x90 => PubAckReasonCode::TopicNameInvalid,
            0x91 => PubAckReasonCode::PacketIdInUse,
            0x97 => PubAckReasonCode::QuotaExceeded,
            0x99 => PubAckReasonCode::PayloadFormatInvalid,
            _ => PubAckReasonCode::Unknown,
        }
    }

    /// Decoding the number of a reason code gives the reason code back, and
    /// every number without a meaning of its own is read as `Unknown`.
    pub proof fn law_code_round_trip(reason: Self, code: u8)
        ensures
            Self::of_code(reason.code()) == reason,
            Self::of_code(code).code() != code ==> Self::of_code(code) == PubAckReasonCode::Unknown,
    {
    }

    /// The reason codes have the numbers that MQTT gives them.
    pub proof fn law_numbers()
        ensures
            PubAckReasonCode::Success.code() == 0x00,
            PubAckReasonCode::NoMatchingSubscribers.code() == 0x10,
            PubAckReasonCode::UnspecifiedError.code() == 0x80,
            PubAckReasonCode::ImplementationError.code() == 0x83,
            PubAckReasonCode::NotAuthorized.code() == 0x87,
            PubAckReasonCode::TopicNameInvalid.code() == 0x90,
            PubAckReasonCode::PacketIdInUse.code() == 0x91,
            PubAckReasonCode::QuotaExceeded.code() == 0x97,
            PubAckReasonCode::PayloadFormatInvalid.code() == 0x99,
            PubAckReasonCode::Unknown.code() == 0xff,
    {
    }
}

impl From<PubAckReasonCode> for u8 {
    fn from(reason: PubAckReasonCode) -> (code: u8) {
        match reason {
            PubAckReasonCode::Success => 0x00,
            PubAckReasonCode::NoMatchingSubscribers => 0x10,
            PubAckReasonCode::UnspecifiedError => 0x80,
            PubAckReasonCode::ImplementationError => 0x83,
            PubAckReasonCode::NotAuthorized => 0x87,
            PubAckReasonCode::TopicNameInvalid => 0x90,
            PubAckReasonCode::PacketIdInUse => 0x91,
            PubAckReasonCode::QuotaExceeded => 0x97,
            PubAckReasonCode::PayloadFormatInvalid => 0x99,
            PubAckReasonCode::Unknown => 0xff,
        }
    }
}

impl vstd::std_specs::convert::FromSpecImpl<PubAckReasonCode> for u8 {
    open spec fn obeys_from_spec() -> bool {
        true
    }

    open spec fn from_spec(reason: PubAckReasonCode) -> u8 {
        reason.code()
    }
}

impl From<u8> for PubAckReasonCode {
    fn from(code: u8) -> (reason: PubAckReasonCode) {
        match code {
            0x00 => PubAckReasonCode::Success,
            0x10 => PubAckReasonCode::NoMatchingSubscribers,
            0x80 => PubAckReasonCode::UnspecifiedError,
            0x83 => PubAckReasonCode::ImplementationError,
            0x87 => PubAckReasonCode::NotAuthorized,
            0x90 => PubAckReasonCode::TopicNameInvalid,
            0x91 => PubAckReasonCode::PacketIdInUse,
            0x97 => PubAckReasonCode::QuotaExceeded,
            0x99 => PubAckReasonCode::PayloadFormatInvalid,
            _ => PubAckReasonCode::Unknown,
        }
    }
}

impl vstd::std_specs::convert::FromSpecImpl<u8> for PubAckReasonCode {
    open spec fn obeys_from_spec() -> bool {
        true
    }

    open spec fn from_spec(code: u8) -> PubAckReasonCode {
        PubAckReasonCode::of_code(code)
    }
}

/// Publish received (PUBREC) reason codes.
#[derive(Debug, Clone, Copy, PartialEq, Eq, PartialOrd, Structural)]
pub enum PubRecReasonCode {
    /// Success.
    Success,
    /// No matching subscribers.
    NoMatchingSubscribers,
    /// Unspecified error.
    UnspecifiedError,
    /// Implementation-specific error.
    ImplementationError,
    /// Not authorized.
    NotAuthorized,
    /// Topic name invalid.
    TopicNameInvalid,
    /// Packet identifier in use.
    PacketIdInUse,
    /// Quota exceeded.
    QuotaExceeded,
    /// Payload format invalid.
    PayloadFormatInvalid,
    /// The reason code is not one of the documented MQTT reason codes.
    Unknown,
}

impl PubRecReasonCode {
    /// The number that stands for the reason code on the wire.
    pub open spec fn code(self) -> u8 {
        match self {
            PubRecReasonCode::Success => 0x00,
            PubRecReasonCode::NoMatchingSubscribers => 0x10,
            PubRecReasonCode::UnspecifiedError => 0x80,
            PubRecReasonCode::ImplementationError => 0x83,
            PubRecReasonCode::NotAuthorized => 0x87,
            PubRecReasonCode::TopicNameInvalid => 0x90,
            PubRecReasonCode::PacketIdInUse => 0x91,
            PubRecReasonCode::QuotaExceeded => 0x97,
            PubRecReasonCode::PayloadFormatInvalid => 0x99,
            PubRecReasonCode::Unknown => 0xff,
        }
    }

    /// The reason code that a number on the wire stands for.
    pub open spec fn of_code(code: u8) -> Self {
        match code {
            0x00 => PubRecReasonCode::Success,
            0x10 => PubRecReasonCode::NoMatchingSubscribers,
            0x80 => PubRecReasonCode::UnspecifiedError,
            0x83 => PubRecReasonCode::ImplementationError,
            0x87 => PubRecReasonCode::NotAuthorized,
            0x90 => PubRecReasonCode::TopicNameInvalid,
            0x91 => PubRecReasonCode::PacketIdInUse,
            0x97 => PubRecReasonCode::QuotaExceeded,
            0x99 => PubRecReasonCode::PayloadFormatInvalid,
            _ => PubRecReasonCode::Unknown,
        }
    }

    /// Decoding the number of a reason code gives the reason code back, and
    /// every number without a meaning of its own is read as `Unknown`.
    pub proof fn law_code_round_trip(reason: Self, code: u8)
        ensures
            Self::of_code(reason.code()) == reason,
            Self::of_code(code).code() != code ==> Self::of_code(code) == PubRecReasonCode::Unknown,
    {
    }

    /// The reason codes have the numbers that MQTT gives them.
    pub proof fn law_numbers()
        ensures
            PubRecReasonCode::Success.code() == 0x00,
            PubRecReasonCode::NoMatchingSubscribers.code() == 0x10,
            PubRecReasonCode::UnspecifiedError.code() == 0x80,
            PubRecReasonCode::ImplementationError.code() == 0x83,
            PubRecReasonCode::NotAuthorized.code() == 0x87,
            PubRecReasonCode::TopicNameInvalid.code() == 0x90,
            PubRecReasonCode::PacketIdInUse.code() == 0x91,
            PubRecReasonCode::QuotaExceeded.code() == 0x97,
            PubRecReasonCode::PayloadFormatInvalid.code() == 0x99,
            PubRecReasonCode::Unknown.code() == 0xff,
    {
    }
}

impl From<PubRecReasonCode> for u8 {
    fn from(reason: PubRecReasonCode) -> (code: u8) {
        match reason {
            PubRecReasonCode::Success => 0x00,
            PubRecReasonCode::NoMatchingSubscribers => 0x10,
            PubRecReasonCode::UnspecifiedError => 0x80,
            PubRecReasonCode::ImplementationError => 0x83,
            PubRecReasonCode::NotAuthorized => 0x87,
            PubRecReasonCode::TopicNameInvalid => 0x90,
            PubRecReasonCode::PacketIdInUse => 0x91,
            PubRecReasonCode::QuotaExceeded => 0x97,
            PubRecReasonCode::PayloadFormatInvalid => 0x99,
            PubRecReasonCode::Unknown => 0xff,
        }
    }
}

impl vstd::std_specs::convert::FromSpecImpl<PubRecReasonCode> for u8 {
    open spec fn obeys_from_spec() -> bool {
        true
    }

    open spec fn from_spec(reason: PubRecReasonCode) -> u8 {
        reason.code()
    }
}

impl From<u8> for PubRecReasonCode {
    fn from(code: u8) -> (reason: PubRecReasonCode) {
        match code {
            0x00 => PubRecReasonCode::Success,
            0x10 => PubRecReasonCode::NoMatchingSubscribers,
            0x80 => PubRecReasonCode::UnspecifiedError,
            0x83 => PubRecReasonCode::ImplementationError,
            0x87 => PubRecReasonCode::NotAuthorized,
            0x90 => PubRecReasonCode::TopicNameInvalid,
            0x91 => PubRecReasonCode::PacketIdInUse,
            0x97 => PubRecReasonCode::QuotaExceeded,
            0x99 => PubRecReasonCode::PayloadFormatInvalid,
            _ => PubRecReasonCode::Unknown,
        }
    }
}

impl vstd::std_specs::convert::FromSpecImpl<u8> for PubRecReasonCode {
    open spec fn obeys_from_spec() -> bool {
        true
    }

    open spec fn from_spec(code: u8) -> PubRecReasonCode {
        PubRecReasonCode::of_code(code)
    }
}

/// Publish release (PUBREL) reason codes.
#[derive(Debug, Clone, Copy, PartialEq, Eq, PartialOrd, Structural)]
pub enum PubRelReasonCode {
    /// Success.
    Success,
    /// Packet identifier not found.
    PacketIdNotFound,
    /// The reason code is not one of the documented MQTT reason codes.
    Unknown,
}

impl PubRelReasonCode {
    /// The number that stands for the reason code on the wire.
    pub open spec fn code(self) -> u8 {
        match self {
            PubRelReasonCode::Success => 0x00,
            PubRelReasonCode::PacketIdNotFound => 0x92,
            PubRelReasonCode::Unknown => 0xff,
        }
    }

    /// The reason code that a number on the wire stands for.
    pub open spec fn of_code(code: u8) -> Self {
        match code {
            0x00 => PubRelReasonCode::Success,
            0x92 => PubRelReasonCode::PacketIdNotFound,
            _ => PubRelReasonCode::Unknown,
        }
    }

    /// Decoding the number of a reason code gives the reason code back, and
    /// every number without a meaning of its own is read as `Unknown`.
    pub proof fn law_code_round_trip(reason: Self, code: u8)
        ensures
            Self::of_code(reason.code()) == reason,
            Self::of_code(code).code() != code ==> Self::of_code(code) == PubRelReasonCode::Unknown,
    {
    }

    /// The reason codes have the numbers that MQTT gives them.
    pub proof fn law_numbers()
        ensures
            PubRelReasonCode::Success.code() == 0x00,
            PubRelReasonCode::PacketIdNotFound.code() == 0x92,
            PubRelReasonCode::Unknown.code() == 0xff,
    {
    }
}

impl From<PubRelReasonCode> for u8 {
    fn from(reason: PubRelReasonCode) -> (code: u8) {
        match reason {
            PubRelReasonCode::Success => 0x00,
            PubRelReasonCode::PacketIdNotFound => 0x92,
            PubRelReasonCode::Unknown => 0xff,
        }
    }
}

impl vstd::std_specs::convert::FromSpecImpl<PubRelReasonCode> for u8 {
    open spec fn obeys_from_spec() -> bool {
        true
    }

    open spec fn from_spec(reason: PubRelReasonCode) -> u8 {
        reason.code()
    }
}

impl From<u8> for PubRelReasonCode {
    fn from(code: u8) -> (reason: PubRelReasonCode) {
        match code {
            0x00 => PubRelReasonCode::Success,
            0x92 => PubRelReasonCode::PacketIdNotFound,
            _ => PubRelReasonCode::Unknown,
        }
    }
}

impl vstd::std_specs::convert::FromSpecImpl<u8> for PubRelReasonCode {
    open spec fn obeys_from_spec() -> bool {
        true
    }

    open spec fn from_spec(code: u8) -> PubRelReasonCode {
        PubRelReasonCode::of_code(code)
    }
}

/// Publish complete (PUBCOMP) reason codes.
#[derive(Debug, Clone, Copy, PartialEq, Eq, PartialOrd, Structural)]
pub enum PubCompReasonCode {
    /// Success.
    Success,
    /// Packet identifier not found.
    PacketIdNotFound,
    /// The reason code is not one of the documented MQTT reason codes.
    Unknown,
}

impl PubCompReasonCode {
    /// The number that stands for the reason code on the wire.
    pub open spec fn code(self) -> u8 {
        match self {
            PubCompReasonCode::Success => 0x00,
            PubCompReasonCode::PacketIdNotFound => 0x92,
            PubCompReasonCode::Unknown => 0xff,
        }
    }

    /// The reason code that a number on the wire stands for.
    pub open spec fn of_code(code: u8) -> Self {
        match code {
            0x00 => PubCompReasonCode::Success,
            0x92 => PubCompReasonCode::PacketIdNotFound,
            _ => PubCompReasonCode::Unknown,
        }
    }

    /// Decoding the number of a reason code gives the reason code back, and
    /// every number without a meaning of its own is read as `Unknown`.
    pub proof fn law_code_round_trip(reason: Self, code: u8)
        ensures
            Self::of_code(reason.code()) == reason,
            Self::of_code(code).code() != code ==> Self::of_code(code) == PubCompReasonCode::Unknown,
    {
    }

    /// The reason codes have the numbers that MQTT gives them.
    pub proof fn law_numbers()
        ensures
            PubCompReasonCode::Success.code() == 0x00,
            PubCompReasonCode::PacketIdNotFound.code() == 0x92,
            PubCompReasonCode::Unknown.code() == 0xff,
    {
    }
}

impl From<PubCompReasonCode> for u8 {
    fn from(reason: PubCompReasonCode) -> (code: u8) {
        match reason {
            PubCompReasonCode::Success => 0x00,
            PubCompReasonCode::PacketIdNotFound => 0x92,
            PubCompReasonCode::Unknown => 0xff,
        }
    }
}

impl vstd::std_specs::convert::FromSpecImpl<PubCompReasonCode> for u8 {
    open spec fn obeys_from_spec() -> bool {
        true
    }

    open spec fn from_spec(reason: PubCompReasonCode) -> u8 {
        reason.code()
    }
}

impl From<u8> for PubCompReasonCode {
    fn from(code: u8) -> (reason: PubCompReasonCode) {
        match code {
            0x00 => PubCompReasonCode::Success,
            0x92 => PubCompReasonCode::PacketIdNotFound,
            _ => PubCompReasonCode::Unknown,
        }
    }
}

impl vstd::std_specs::convert::FromSpecImpl<u8> for PubCompReasonCode {
    open spec fn obeys_from_spec() -> bool {
        true
    }

    open spec fn from_spec(code: u8) -> PubCompReasonCode {
        PubCompReasonCode::of_code(code)
    }
}

/// Subscribe acknowledgement reason codes for MQTTv5.
#[derive(Debug, Clone, Copy, PartialEq, Eq, PartialOrd, Structural)]
pub enum SubAckReasonCode {
    /// Granted QoS 0.
    GrantedQoS0,
    /// Granted QoS 1.
    GrantedQoS1,
    /// Granted QoS 2.
    GrantedQoS2,
    /// Unspecified error.
    UnspecifiedError,
    /// Implementation-specific error.
    ImplementationSpecificError,
    /// Not authorized.
    NotAuthorized,
    /// Topic filter invalid.
    TopicFilterInvalid,
    /// Packet identifier in use.
    PacketIdentifierInUse,
    /// Quota exceeded.
    QuotaExceeded,
    /// Shared subscriptions not supported.
    SharedSubscriptionsNotSupported,
    /// Subscription identifiers not supported.
    SubscriptionIdentifiersNotSupported,
    /// Wildcard subscriptions not supported.
    WildcardSubscriptionsNotSupported,
    /// The reason code is not one of the documented MQTT reason codes.
    Unknown,
}

impl SubAckReasonCode {
    /// The number that stands for the reason code on the wire.
    pub open spec fn code(self) -> u8 {
        match self {
            SubAckReasonCode::GrantedQoS0 => 0x00,
            SubAckReasonCode::GrantedQoS1 => 0x01,
            SubAckReasonCode::GrantedQoS2 => 0x02,
            SubAckReasonCode::UnspecifiedError => 0x80,
            SubAckReasonCode::ImplementationSpecificError => 0x83,
            SubAckReasonCode::NotAuthorized => 0x87,
            SubAckReasonCode::TopicFilterInvalid => 0x8f,
            SubAckReasonCode::PacketIdentifierInUse => 0x91,
            SubAckReasonCode::QuotaExceeded => 0x97,
            SubAckReasonCode::SharedSubscriptionsNotSupported => 0x9e,
            SubAckReasonCode::SubscriptionIdentifiersNotSupported => 0xa1,
            SubAckReasonCode::WildcardSubscriptionsNotSupported => 0xa2,
            SubAckReasonCode::Unknown => 0xff,
        }
    }

    /// The reason code that a number on the wire stands for.
    pub open spec fn of_code(code: u8) -> Self {
        match code {
            0x00 => SubAckReasonCode::GrantedQoS0,
            0x01 => SubAckReasonCode::GrantedQoS1,
            0x02 => SubAckReasonCode::GrantedQoS2,
            0x80 => SubAckReasonCode::UnspecifiedError,
            0x83 => SubAckReasonCode::ImplementationSpecificError,
            0x87 => SubAckReasonCode::NotAuthorized,
            0x8f => SubAckReasonCode::TopicFilterInvalid,
            0x91 => SubAckReasonCode::PacketIdentifierInUse,
            0x97 => SubAckReasonCode::QuotaExceeded,
            0x9e => SubAckReasonCode::SharedSubscriptionsNotSupported,
            0xa1 => SubAckReasonCode::SubscriptionIdentifiersNotSupported,
            0xa2 => SubAckReasonCode::WildcardSubscriptionsNotSupported,
            _ => SubAckReasonCode::Unknown,
        }
    }

    /// Decoding the number of a reason code gives the reason code back, and
    /// every number without a meaning of its own is read as `Unknown`.
    pub proof fn law_code_round_trip(reason: Self, code: u8)
        ensures
            Self::of_code(reason.code()) == reason,
            Self::of_code(code).code() != code ==> Self::of_code(code) == SubAckReasonCode::Unknown,
    {
    }

    /// The reason codes have the numbers that MQTT gives them.
    pub proof fn law_numbers()
        ensures
            SubAckReasonCode::GrantedQoS0.code() == 0x00,
            SubAckReasonCode::GrantedQoS1.code() == 0x01,
            SubAckReasonCode::GrantedQoS2.code() == 0x02,
            SubAckReasonCode::UnspecifiedError.code() == 0x80,
            SubAckReasonCode::ImplementationSpecificError.code() == 0x83,
            SubAckReasonCode::NotAuthorized.code() == 0x87,
            SubAckReasonCode::TopicFilterInvalid.code() == 0x8f,
            SubAckReasonCode::PacketIdentifierInUse.code() == 0x91,
            SubAckReasonCode::QuotaExceeded.code() == 0x97,
            SubAckReasonCode::SharedSubscriptionsNotSupported.code() == 0x9e,
            SubAckReasonCode::SubscriptionIdentifiersNotSupported.code() == 0xa1,
            SubAckReasonCode::WildcardSubscriptionsNotSupported.code() == 0xa2,
            SubAckReasonCode::Unknown.code() == 0xff,
    {
    }

    /// Whether the reason code reports success.
    pub fn success(&self) -> (ok: bool)
        ensures
            ok == (self.code() < 0x80),
    {
        let value: u8 = u8::from(*self);
        value < 0x80
    }
}

impl From<SubAckReasonCode> for u8 {
    fn from(reason: SubAckReasonCode) -> (code: u8) {
        match reason {
            SubAckReasonCode::GrantedQoS0 => 0x00,
            SubAckReasonCode::GrantedQoS1 => 0x01,
            SubAckReasonCode::GrantedQoS2 => 0x02,
            SubAckReasonCode::UnspecifiedError => 0x80,
            SubAckReasonCode::ImplementationSpecificError => 0x83,
            SubAckReasonCode::NotAuthorized => 0x87,
            SubAckReasonCode::TopicFilterInvalid => 0x8f,
            SubAckReasonCode::PacketIdentifierInUse => 0x91,
            SubAckReasonCode::QuotaExceeded => 0x97,
            SubAckReasonCode::SharedSubscriptionsNotSupported => 0x9e,
            SubAckReasonCode::SubscriptionIdentifiersNotSupported => 0xa1,
            SubAckReasonCode::WildcardSubscriptionsNotSupported => 0xa2,
            SubAckReasonCode::Unknown => 0xff,
        }
    }
}

impl vstd::std_specs::convert::FromSpecImpl<SubAckReasonCode> for u8 {
    open spec fn obeys_from_spec() -> bool {
        true
    }

    open spec fn from_spec(reason: SubAckReasonCode) -> u8 {
        reason.code()
    }
}

impl From<u8> for SubAckReasonCode {
    fn from(code: u8) -> (reason: SubAckReasonCode) {
        match code {
            0x00 => SubAckReasonCode::GrantedQoS0,
            0x01 => SubAckReasonCode::GrantedQoS1,
            0x02 => SubAckReasonCode::GrantedQoS2,
            0x80 => SubAckReasonCode::UnspecifiedError,
            0x83 => SubAckReasonCode::ImplementationSpecificError,
            0x87 => SubAckReasonCode::NotAuthorized,
            0x8f => SubAckReasonCode::TopicFilterInvalid,
            0x91 => SubAckReasonCode::PacketIdentifierInUse,
            0x97 => SubAckReasonCode::QuotaExceeded,
            0x9e => SubAckReasonCode::SharedSubscriptionsNotSupported,
            0xa1 => SubAckReasonCode::SubscriptionIdentifiersNotSupported,
            0xa2 => SubAckReasonCode::WildcardSubscriptionsNotSupported,
            _ => SubAckReasonCode::Unknown,
        }
    }
}

impl vstd::std_specs::convert::FromSpecImpl<u8> for SubAckReasonCode {
    open spec fn obeys_from_spec() -> bool {
        true
    }

    open spec fn from_spec(code: u8) -> SubAckReasonCode {
        SubAckReasonCode::of_code(code)
    }
}

/// Unsubscribe acknowledgement reason codes for MQTTv5.
#[derive(Debug, Clone, Copy, PartialEq, Eq, PartialOrd, Structural)]
pub enum UnsubAckReasonCode {
    /// Success.
    Success,
    /// No subscription existed.
    NoSubscriptionExisted,
    /// Unspecified error.
    UnspecifiedError,
    /// Implementation-specific error.
    ImplementationSpecificError,
    /// Not authorized.
    NotAuthorized,
    /// Topic filter invalid.
    TopicFilterInvalid,
    /// Packet identifier in use.
    PacketIdentifierInUse,
    /// The reason code is not one of the documented MQTT reason codes.
    Unknown,
}

impl UnsubAckReasonCode {
    /// The number that stands for the reason code on the wire.
    pub open spec fn code(self) -> u8 {
        match self {
            UnsubAckReasonCode::Success => 0x00,
            UnsubAckReasonCode::NoSubscriptionExisted => 0x11,
            UnsubAckReasonCode::UnspecifiedError => 0x80,
            UnsubAckReasonCode::ImplementationSpecificError => 0x83,
            UnsubAckReasonCode::NotAuthorized => 0x87,
            UnsubAckReasonCode::TopicFilterInvalid => 0x8f,
            UnsubAckReasonCode::PacketIdentifierInUse => 0x91,
            UnsubAckReasonCode::Unknown => 0xff,
        }
    }

    /// The reason code that a number on the wire stands for.
    pub open spec fn of_code(code: u8) -> Self {
        match code {
            0x00 => UnsubAckReasonCode::Success,
            0x11 => UnsubAckReasonCode::NoSubscriptionExisted,
            0x80 => UnsubAckReasonCode::UnspecifiedError,
            0x83 => UnsubAckReasonCode::ImplementationSpecificError,
            0x87 => UnsubAckReasonCode::NotAuthorized,
            0x8f => UnsubAckReasonCode::TopicFilterInvalid,
            0x91 => UnsubAckReasonCode::PacketIdentifierInUse,
            _ => UnsubAckReasonCode::Unknown,
        }
    }

    /// Decoding the number of a reason code gives the reason code back, and
    /// every number without a meaning of its own is read as `Unknown`.
    pub proof fn law_code_round_trip(reason: Self, code: u8)
        ensures
            Self::of_code(reason.code()) == reason,
            Self::of_code(code).code() != code ==> Self::of_code(code) == UnsubAckReasonCode::Unknown,
    {
    }

    /// The reason codes have the numbers that MQTT gives them.
    pub proof fn law_numbers()
        ensures
            UnsubAckReasonCode::Success.code() == 0x00,
            UnsubAckReasonCode::NoSubscriptionExisted.code() == 0x11,
            UnsubAckReasonCode::UnspecifiedError.code() == 0x80,
            UnsubAckReasonCode::ImplementationSpecificError.code() == 0x83,
            UnsubAckReasonCode::NotAuthorized.code() == 0x87,
            UnsubAckReasonCode::TopicFilterInvalid.code() == 0x8f,
            UnsubAckReasonCode::PacketIdentifierInUse.code() == 0x91,
            UnsubAckReasonCode::Unknown.code() == 0xff,
    {
    }

    /// Whether the reason code reports success.
    pub fn success(&self) -> (ok: bool)
        ensures
            ok == (self.code() < 0x80),
    {
        let value: u8 = u8::from(*self);
        value < 0x80
    }
}

impl From<UnsubAckReasonCode> for u8 {
    fn from(reason: UnsubAckReasonCode) -> (code: u8) {
        match reason {
            UnsubAckReasonCode::Success => 0x00,
            UnsubAckReasonCode::NoSubscriptionExisted => 0x11,
            UnsubAckReasonCode::UnspecifiedError => 0x80,
            UnsubAckReasonCode::ImplementationSpecificError => 0x83,
            UnsubAckReasonCode::NotAuthorized => 0x87,
            UnsubAckReasonCode::TopicFilterInvalid => 0x8f,
            UnsubAckReasonCode::PacketIdentifierInUse => 0x91,
            UnsubAckReasonCode::Unknown => 0xff,
        }
    }
}

impl vstd::std_specs::convert::FromSpecImpl<UnsubAckReasonCode> for u8 {
    open spec fn obeys_from_spec() -> bool {
        true
    }

    open spec fn from_spec(reason: UnsubAckReasonCode) -> u8 {
        reason.code()
    }
}

impl From<u8> for UnsubAckReasonCode {
    fn from(code: u8) -> (reason: UnsubAckReasonCode) {
        match code {
            0x00 => UnsubAckReasonCode::Success,
            0x11 => UnsubAckReasonCode::NoSubscriptionExisted,
            0x80 => UnsubAckReasonCode::UnspecifiedError,
            0x83 => UnsubAckReasonCode::ImplementationSpecificError,
            0x87 => UnsubAckReasonCode::NotAuthorized,
            0x8f => UnsubAckReasonCode::TopicFilterInvalid,
            0x91 => UnsubAckReasonCode::PacketIdentifierInUse,
            _ => UnsubAckReasonCode::Unknown,
        }
    }
}

impl vstd::std_specs::convert::FromSpecImpl<u8> for UnsubAckReasonCode {
    open spec fn obeys_from_spec() -> bool {
        true
    }

    open spec fn from_spec(code: u8) -> UnsubAckReasonCode {
        UnsubAckReasonCode::of_code(code)
    }
}

/// MQTTv5-defined codes that may be sent as Disconnect Reason Code values.
#[derive(Debug, Clone, Copy, PartialEq, Eq, PartialOrd, Structural)]
pub enum DisconnectReasonCode {
    /// Normal disconnection.
    Normal,
    /// The Client wishes to disconnect but requires that the Server also publishes its Will Message.
    DisconnectWithWillMessage,
    /// The Connection is closed but the sender either does not wish to reveal the reason, or none of the other Reason Codes apply.
    UnspecifiedError,
    /// Malformed packet.
    MalformedPacket,
    /// Protocol error.
    ProtocolError,
    /// Implementation-specific error.
    ImplementationSpecificError,
    /// Not authorized.
    NotAuthorized,
    /// Server busy.
    ServerBusy,
    /// Server shutting down.
    ServerShuttingDown,
    /// Keep alive timeout.
    KeepAliveTimeout,
    /// Session taken over.
    SessionTakenOver,
    /// Topic filter invalid.
    TopicFilterInvalid,
    /// Topic name invalid.
    TopicNameInvalid,
    /// Receive maximum exceeded.
    ReceiveMaximumExceeded,
    /// Topic alias invalid.
    TopicAliasInvalid,
    /// Packet too large.
    PacketTooLarge,
    /// Message rate too high.
    MessageRateTooHigh,
    /// Quota exceeded.
    QuotaExceeded,
    /// Administrative action.
    AdministrativeAction,
    /// Payload format invalid.
    PayloadFormatInvalid,
    /// Retain not supported.
    RetainNotSupported,
    /// QoS not supported.
    QoSNotSupported,
    /// Use another server.
    UseAnotherServer,
    /// Server moved.
    ServerMoved,
    /// Shared subscriptions not supported.
    SharedSubscriptionsNotSupported,
    /// Connection rate exceeded.
    ConnectionRateExceeded,
    /// Maximum connect time exceeded.
    MaximumConnectTime,
    /// Subscription identifiers not supported.
    SubscriptionIdentifiersNotSupported,
    /// Wildcard subscriptions not supported.
    WildcardSubscriptionsNotSupported,
}

impl DisconnectReasonCode {
    /// The number that stands for the reason code on the wire.
    pub open spec fn code(self) -> u8 {
        match self {
            DisconnectReasonCode::Normal => 0x00,
            DisconnectReasonCode::DisconnectWithWillMessage => 0x04,
            DisconnectReasonCode::UnspecifiedError => 0x80,
            DisconnectReasonCode::MalformedPacket => 0x81,
            DisconnectReasonCode::ProtocolError => 0x82,
            DisconnectReasonCode::ImplementationSpecificError => 0x83,
            DisconnectReasonCode::NotAuthorized => 0x87,
            DisconnectReasonCode::ServerBusy => 0x89,
            DisconnectReasonCode::ServerShuttingDown => 0x8b,
            DisconnectReasonCode::KeepAliveTimeout => 0x8d,
            DisconnectReasonCode::SessionTakenOver => 0x8e,
            DisconnectReasonCode::TopicFilterInvalid => 0x8f,
            DisconnectReasonCode::TopicNameInvalid => 0x90,
            DisconnectReasonCode::ReceiveMaximumExceeded => 0x93,
            DisconnectReasonCode::TopicAliasInvalid => 0x94,
            DisconnectReasonCode::PacketTooLarge => 0x95,
            DisconnectReasonCode::MessageRateTooHigh => 0x96,
            DisconnectReasonCode::QuotaExceeded => 0x97,
            DisconnectReasonCode::AdministrativeAction => 0x98,
            DisconnectReasonCode::PayloadFormatInvalid => 0x99,
            DisconnectReasonCode::RetainNotSupported => 0x9a,
            DisconnectReasonCode::QoSNotSupported => 0x9b,
            DisconnectReasonCode::UseAnotherServer => 0x9c,
            DisconnectReasonCode::ServerMoved => 0x9d,
            DisconnectReasonCode::SharedSubscriptionsNotSupported => 0x9e,
            DisconnectReasonCode::ConnectionRateExceeded => 0x9f,
            DisconnectReasonCode::MaximumConnectTime => 0xa0,
            DisconnectReasonCode::SubscriptionIdentifiersNotSupported => 0xa1,
            DisconnectReasonCode::WildcardSubscriptionsNotSupported => 0xa2,
        }
    }

    /// The reason code that a number on the wire stands for.
    pub open spec fn of_code(code: u8) -> Self {
        match code {
            0x04 => DisconnectReasonCode::DisconnectWithWillMessage,
            0x80 => DisconnectReasonCode::UnspecifiedError,
            0x81 => DisconnectReasonCode::MalformedPacket,
            0x82 => DisconnectReasonCode::ProtocolError,
            0x83 => DisconnectReasonCode::ImplementationSpecificError,
            0x87 => DisconnectReasonCode::NotAuthorized,
            0x89 => DisconnectReasonCode::ServerBusy,
            0x8b => DisconnectReasonCode::ServerShuttingDown,
            0x8d => DisconnectReasonCode::KeepAliveTimeout,
            0x8e => DisconnectReasonCode::SessionTakenOver,
            0x8f => DisconnectReasonCode::TopicFilterInvalid,
            0x90 => DisconnectReasonCode::TopicNameInvalid,
            0x93 => DisconnectReasonCode::ReceiveMaximumExceeded,
            0x94 => DisconnectReasonCode::TopicAliasInvalid,
            0x95 => DisconnectReasonCode::PacketTooLarge,
            0x96 => DisconnectReasonCode::MessageRateTooHigh,
            0x97 => DisconnectReasonCode::QuotaExceeded,
            0x98 => DisconnectReasonCode::AdministrativeAction,
            0x99 => DisconnectReasonCode::PayloadFormatInvalid,
            0x9a => DisconnectReasonCode::RetainNotSupported,
            0x9b => DisconnectReasonCode::QoSNotSupported,
            0x9c => DisconnectReasonCode::UseAnotherServer,
            0x9d => DisconnectReasonCode::ServerMoved,
            0x9e => DisconnectReasonCode::SharedSubscriptionsNotSupported,
            0x9f => DisconnectReasonCode::ConnectionRateExceeded,
            0xa0 => DisconnectReasonCode::MaximumConnectTime,
            0xa1 => DisconnectReasonCode::SubscriptionIdentifiersNotSupported,
            0xa2 => DisconnectReasonCode::WildcardSubscriptionsNotSupported,
            _ => DisconnectReasonCode::Normal,
        }
    }

    /// Decoding the number of a reason code gives the reason code back, and
    /// every number without a meaning of its own is read as `Normal`.
    pub proof fn law_code_round_trip(reason: Self, code: u8)
        ensures
            Self::of_code(reason.code()) == reason,
            Self::of_code(code).code() != code ==> Self::of_code(code) == DisconnectReasonCode::Normal,
    {
    }

    /// The reason codes have the numbers that MQTT gives them.
    pub proof fn law_numbers()
        ensures
            DisconnectReasonCode::Normal.code() == 0x00,
            DisconnectReasonCode::DisconnectWithWillMessage.code() == 0x04,
            DisconnectReasonCode::UnspecifiedError.code() == 0x80,
            DisconnectReasonCode::MalformedPacket.code() == 0x81,
            DisconnectReasonCode::ProtocolError.code() == 0x82,
            DisconnectReasonCode::ImplementationSpecificError.code() == 0x83,
            DisconnectReasonCode::NotAuthorized.code() == 0x87,
            DisconnectReasonCode::ServerBusy.code() == 0x89,
            DisconnectReasonCode::ServerShuttingDown.code() == 0x8b,
            DisconnectReasonCode::KeepAliveTimeout.code() == 0x8d,
            DisconnectReasonCode::SessionTakenOver.code() == 0x8e,
            DisconnectReasonCode::TopicFilterInvalid.code() == 0x8f,
            DisconnectReasonCode::TopicNameInvalid.code() == 0x90,
            DisconnectReasonCode::ReceiveMaximumExceeded.code() == 0x93,
            DisconnectReasonCode::TopicAliasInvalid.code() == 0x94,
            DisconnectReasonCode::PacketTooLarge.code() == 0x95,
            DisconnectReasonCode::MessageRateTooHigh.code() == 0x96,
            DisconnectReasonCode::QuotaExceeded.code() == 0x97,
            DisconnectReasonCode::AdministrativeAction.code() == 0x98,
            DisconnectReasonCode::PayloadFormatInvalid.code() == 0x99,
            DisconnectReasonCode::RetainNotSupported.code() == 0x9a,
            DisconnectReasonCode::QoSNotSupported.code() == 0x9b,
            DisconnectReasonCode::UseAnotherServer.code() == 0x9c,
            DisconnectReasonCode::ServerMoved.code() == 0x9d,
            DisconnectReasonCode::SharedSubscriptionsNotSupported.code() == 0x9e,
            DisconnectReasonCode::ConnectionRateExceeded.code() == 0x9f,
            DisconnectReasonCode::MaximumConnectTime.code() == 0xa0,
            DisconnectReasonCode::SubscriptionIdentifiersNotSupported.code() == 0xa1,
            DisconnectReasonCode::WildcardSubscriptionsNotSupported.code() == 0xa2,
    {
    }
}

impl From<DisconnectReasonCode> for u8 {
    fn from(reason: DisconnectReasonCode) -> (code: u8) {
        match reason {
            DisconnectReasonCode::Normal => 0x00,
            DisconnectReasonCode::DisconnectWithWillMessage => 0x04,
            DisconnectReasonCode::UnspecifiedError => 0x80,
            DisconnectReasonCode::MalformedPacket => 0x81,
            DisconnectReasonCode::ProtocolError => 0x82,
            DisconnectReasonCode::ImplementationSpecificError => 0x83,
            DisconnectReasonCode::NotAuthorized => 0x87,
            DisconnectReasonCode::ServerBusy => 0x89,
            DisconnectReasonCode::ServerShuttingDown => 0x8b,
            DisconnectReasonCode::KeepAliveTimeout => 0x8d,
            DisconnectReasonCode::SessionTakenOver => 0x8e,
            DisconnectReasonCode::TopicFilterInvalid => 0x8f,
            DisconnectReasonCode::TopicNameInvalid => 0x90,
            DisconnectReasonCode::ReceiveMaximumExceeded => 0x93,
            DisconnectReasonCode::TopicAliasInvalid => 0x94,
            DisconnectReasonCode::PacketTooLarge => 0x95,
            DisconnectReasonCode::MessageRateTooHigh => 0x96,
            DisconnectReasonCode::QuotaExceeded => 0x97,
            DisconnectReasonCode::AdministrativeAction => 0x98,
            DisconnectReasonCode::PayloadFormatInvalid => 0x99,
            DisconnectReasonCode::RetainNotSupported => 0x9a,
            DisconnectReasonCode::QoSNotSupported => 0x9b,
            DisconnectReasonCode::UseAnotherServer => 0x9c,
            DisconnectReasonCode::ServerMoved => 0x9d,
            DisconnectReasonCode::SharedSubscriptionsNotSupported => 0x9e,
            DisconnectReasonCode::ConnectionRateExceeded => 0x9f,
            DisconnectReasonCode::MaximumConnectTime => 0xa0,
            DisconnectReasonCode::SubscriptionIdentifiersNotSupported => 0xa1,
            DisconnectReasonCode::WildcardSubscriptionsNotSupported => 0xa2,
        }
    }
}

impl vstd::std_specs::convert::FromSpecImpl<DisconnectReasonCode> for u8 {
    open spec fn obeys_from_spec() -> bool {
        true
    }

    open spec fn from_spec(reason: DisconnectReasonCode) -> u8 {
        reason.code()
    }
}

impl From<u8> for DisconnectReasonCode {
    fn from(code: u8) -> (reason: DisconnectReasonCode) {
        match code {
            0x04 => DisconnectReasonCode::DisconnectWithWillMessage,
            0x80 => DisconnectReasonCode::UnspecifiedError,
            0x81 => DisconnectReasonCode::MalformedPacket,
            0x82 => DisconnectReasonCode::ProtocolError,
            0x83 => DisconnectReasonCode::ImplementationSpecificError,
            0x87 => DisconnectReasonCode::NotAuthorized,
            0x89 => DisconnectReasonCode::ServerBusy,
            0x8b => DisconnectReasonCode::ServerShuttingDown,
            0x8d => DisconnectReasonCode::KeepAliveTimeout,
            0x8e => DisconnectReasonCode::SessionTakenOver,
            0x8f => DisconnectReasonCode::TopicFilterInvalid,
            0x90 => DisconnectReasonCode::TopicNameInvalid,
            0x93 => DisconnectReasonCode::ReceiveMaximumExceeded,
            0x94 => DisconnectReasonCode::TopicAliasInvalid,
            0x95 => DisconnectReasonCode::PacketTooLarge,
            0x96 => DisconnectReasonCode::MessageRateTooHigh,
            0x97 => DisconnectReasonCode::QuotaExceeded,
            0x98 => DisconnectReasonCode::AdministrativeAction,
            0x99 => DisconnectReasonCode::PayloadFormatInvalid,
            0x9a => DisconnectReasonCode::RetainNotSupported,
            0x9b => DisconnectReasonCode::QoSNotSupported,
            0x9c => DisconnectReasonCode::UseAnotherServer,
            0x9d => DisconnectReasonCode::ServerMoved,
            0x9e => DisconnectReasonCode::SharedSubscriptionsNotSupported,
            0x9f => DisconnectReasonCode::ConnectionRateExceeded,
            0xa0 => DisconnectReasonCode::MaximumConnectTime,
            0xa1 => DisconnectReasonCode::SubscriptionIdentifiersNotSupported,
            0xa2 => DisconnectReasonCode::WildcardSubscriptionsNotSupported,
            _ => DisconnectReasonCode::Normal,
        }
    }
}

impl vstd::std_specs::convert::FromSpecImpl<u8> for DisconnectReasonCode {
    open spec fn obeys_from_spec() -> bool {
        true
    }

    open spec fn from_spec(code: u8) -> DisconnectReasonCode {
        DisconnectReasonCode::of_code(code)
    }
}

impl Default for DisconnectReasonCode {
    fn default() -> (reason: DisconnectReasonCode)
        ensures
            reason == DisconnectReasonCode::Normal,
    {
        DisconnectReasonCode::Normal
    }
}

} // verus!
