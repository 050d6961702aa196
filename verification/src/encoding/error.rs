use vstd::prelude::*;

verus! {

/// Errors returned while encoding and decoding packets.
#[derive(Debug, Clone, PartialEq, Eq)]
pub enum Error {
    ProvidedClientIdTooLong,
    UnexpectedPacket,
    /// The buffer ends before the packet does.
    InsufficientBytes,
    /// Tried to decode a property with an unknown identifier.
    InvalidProperty(u8),
    MalformedPacket,
    /// Not enough space in the write buffer.
    ///
    /// It is the caller's responsibility to pass a big enough buffer.
    BufferSize,
    /// Tried to use a packet identifier of zero.
    BadIdentifier(u16),
    Unacknowledged,
    /// Tried to decode a QoS > 2.
    WrongQos(u8),
    UnsupportedPacket,
    NoTopic,
    AuthAlreadySpecified,
    WillAlreadySpecified,
    /// Tried to decode an unknown protocol.
    InvalidProtocol(String, u8),
    /// Tried to decode an invalid fixed header (packet type, flags, or remaining length).
    InvalidHeader,
    /// Trying to encode/decode an invalid length.
    InvalidLength,
    /// Trying to decode a non-utf8 string.
    InvalidString,
    /// A packet that needs a packet identifier has none.
    PidMissing,
}

/// The ways in which the transport can fail.
#[derive(Debug, Clone, Copy, PartialEq, Eq, Structural)]
pub enum ErrorKind {
    /// Unspecified error kind.
    Other,
    /// An entity was not found, often a file.
    NotFound,
    /// The operation lacked the necessary privileges to complete.
    PermissionDenied,
    /// The connection was refused by the remote server.
    ConnectionRefused,
    /// The connection was reset by the remote server.
    ConnectionReset,
    /// The connection was aborted (terminated) by the remote server.
    ConnectionAborted,
    /// The network operation failed because it was not connected yet.
    NotConnected,
    /// A socket address could not be bound because the address is already in use elsewhere.
    AddrInUse,
    /// A nonexistent interface was requested or the requested address was not local.
    AddrNotAvailable,
    /// The operation failed because a pipe was closed.
    BrokenPipe,
    /// An entity already exists, often a file.
    AlreadyExists,
    /// A parameter was incorrect.
    InvalidInput,
    /// Data not valid for the operation were encountered.
    InvalidData,
    /// The I/O operation's timeout expired, causing it to be canceled.
    TimedOut,
    /// This operation was interrupted.
    Interrupted,
    /// This operation is unsupported on this platform.
    Unsupported,
    /// An operation could not be completed, because it failed to allocate enough memory.
    OutOfMemory,
    /// An attempted write could not write any data.
    WriteZero,
}

/// Errors of the protocol state machine.
#[derive(Debug, Clone, PartialEq, Eq)]
pub enum StateError {
    /// Io Error while state is passed to network
    Io(ErrorKind),
    /// Invalid state for a given operation
    InvalidState,
    /// Received a packet (ack) which isn't asked for
    Unsolicited(u16),
    /// Last pingreq isn't acked
    AwaitPingResp,
    /// Received a wrong packet while waiting for another packet
    WrongPacket,
    CollisionTimeout,
    EmptySubscription,
    Deserialization,
    OutgoingPacketTooLarge { pkt_size: usize, max: usize },
}

} // verus!
