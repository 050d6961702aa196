use vstd::prelude::*;

use crate::encoding::error::Error as EncodingError;
use crate::encoding::error::{ErrorKind, StateError};

verus! {

/// Errors of the client.
#[derive(Debug, Clone, PartialEq, Eq)]
pub enum Error {
    /// Unexpected end of input while parsing a packet.
    EOF,
    /// Internal state machine received an unexpected transition.
    StateMismatch,
    /// Received a packet that violates the MQTT protocol.
    MalformedPacket,
    /// Transport read operation failed.
    Read,
    /// Transport write operation failed.
    Write,
    /// Maximum number of concurrent subscribers exceeded.
    TooManyClients,
    /// The provided topic filter string is invalid.
    BadTopicFilter,
    /// Maximum number of in-flight messages reached.
    MaxInflight,
    /// An operation timed out.
    Timeout,
    /// A buffer or collection capacity was exceeded.
    Overflow,
    /// Error during packet encoding or decoding.
    Encoding(EncodingError),
}

impl From<EncodingError> for Error {
    fn from(value: EncodingError) -> (error: Error) {
        Error::Encoding(value)
    }
}

impl vstd::std_specs::convert::FromSpecImpl<EncodingError> for Error {
    open spec fn obeys_from_spec() -> bool {
        true
    }

    open spec fn from_spec(value: EncodingError) -> Error {
        Error::Encoding(value)
    }
}

/// Errors of an attempt to connect to the broker.
#[non_exhaustive]
#[derive(Debug, Clone, PartialEq)]
pub enum ConnectionError {
    /// The MQTT state machine encountered an error.
    MqttState(StateError),
    /// Timed out waiting for a network connection.
    NetworkTimeout,
    /// Timed out flushing data to the transport.
    FlushTimeout,
    /// The broker address could not be resolved.
    InvalidAddress,
    /// Underlying I/O transport error.
    Io(ErrorKind),
    /// The broker refused the connection (non-success reason code).
    ConnectionRefused,
    /// Expected a CONNACK packet but received something else.
    NotConnAck,
    /// All pending requests have been processed.
    RequestsDone,
}

} // verus!
