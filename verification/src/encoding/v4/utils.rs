use vstd::prelude::*;

use super::encoder::{write_u16, written_at};
use crate::encoding::utils::{qos_code, qos_of_code, Pid, QoS};
use crate::encoding::wire::{u16_bytes, u16_of};

verus! {

/// Errors of encoding and decoding.
#[derive(Debug, Clone, PartialEq, Eq)]
pub enum Error {
    /// Not enough space in the write buffer.
    ///
    /// It is the caller's responsiblity to pass a big enough buffer.
    WriteZero,
    /// Tried to encode or decode a ProcessIdentifier==0.
    InvalidPid(u16),
    /// Tried to decode a QoS > 2.
    InvalidQos(u8),
    /// Tried to decode a ConnectReturnCode > 5.
    InvalidConnectReturnCode(u8),
    /// Tried to decode an unknown protocol.
    InvalidProtocol(String, u8),
    /// Tried to decode an invalid fixed header (packet type, flags, or remaining_length).
    InvalidHeader,
    /// Trying to encode/decode an invalid length.
    ///
    /// The difference with `WriteZero` is that it refers to an invalid/corrupt
    /// length rather than a buffer size issue.
    InvalidLength,
    /// Trying to decode a non-utf8 string.
    InvalidString,
    PidMissing,
}

impl Pid {
    /// Reads a packet identifier at `offset`.
    pub fn from_buffer(buf: &[u8], offset: &mut usize) -> (res: Result<Self, Error>)
        requires
            *old(offset) + 2 <= buf@.len(),
        ensures
            *final(offset) == *old(offset) + 2,
            match res {
                Ok(pid) => pid@ != 0 && pid@ == u16_of(
                    buf@[*old(offset) as int],
                    buf@[*old(offset) + 1],
                ),
                Err(e) => {
                    &&& u16_of(buf@[*old(offset) as int], buf@[*old(offset) + 1]) == 0
                    &&& e == Error::InvalidPid(0)
                },
            },
    {
        let total: usize = buf.len();
        let pid: u16 = buf[*offset] as u16 * 256 + buf[*offset + 1] as u16;
        *offset = *offset + 2;
        match Pid::try_from(pid) {
            Ok(pid) => Ok(pid),
            Err(_) => Err(Error::InvalidPid(pid)),
        }
    }

    /// Writes the packet identifier at `offset`.
    pub fn to_buffer(self, buf: &mut [u8], offset: &mut usize) -> (res: Result<(), Error>)
        requires
            *old(offset) <= old(buf)@.len(),
        ensures
            written_at(
                old(buf)@,
                *old(offset),
                final(buf)@,
                *final(offset),
                u16_bytes(self@),
                res,
            ),
    {
        write_u16(buf, offset, self.get())
    }
}

impl QoS {
    /// Returns the number of the quality of service.
    pub fn as_u8(&self) -> (code: u8)
        ensures
            code == qos_code(*self),
    {
        match *self {
            QoS::AtMostOnce => 0,
            QoS::AtLeastOnce => 1,
            QoS::ExactlyOnce => 2,
        }
    }

    /// Makes a quality of service out of its number.
    pub fn from_u8(byte: u8) -> (res: Result<QoS, Error>)
        ensures
            match (res, qos_of_code(byte)) {
                (Ok(qos), Ok(view)) => qos == view,
                (Err(e), Err(_)) => e == Error::InvalidQos(byte),
                _ => false,
            },
    {
        match byte {
            0 => Ok(QoS::AtMostOnce),
            1 => Ok(QoS::AtLeastOnce),
            2 => Ok(QoS::ExactlyOnce),
            n => Err(Error::InvalidQos(n)),
        }
    }
}

/// Reading a packet identifier gives back the one that was written, and 0 is
/// none.
pub proof fn law_pid_round_trip(
    pid: Pid,
    buf: &mut [u8],
    offset: &mut usize,
    written: Result<(), Error>,
    bytes: &[u8],
    pos: &mut usize,
    res: Result<Pid, Error>,
)
    requires
        *old(offset) <= old(buf)@.len(),
        call_ensures(Pid::to_buffer, (pid, buf, offset), written),
        *old(pos) + 2 <= bytes@.len(),
        call_ensures(Pid::from_buffer, (bytes, pos), res),
    ensures
        written is Ok <==> *old(offset) + 2 <= old(buf)@.len(),
        written is Ok ==> {
            &&& *final(offset) == *old(offset) + 2
            &&& final(buf)@[*old(offset) as int] * 256 + final(buf)@[*old(offset) + 1] == pid@
        },
        *final(pos) == *old(pos) + 2,
        res is Ok <==> bytes@[*old(pos) as int] != 0 || bytes@[*old(pos) + 1] != 0,
        res matches Ok(read) ==> read@ == bytes@[*old(pos) as int] * 256 + bytes@[*old(pos) + 1],
        res matches Err(e) ==> e == Error::InvalidPid(0),
        written is Ok && pid@ != 0 && bytes@ == final(buf)@ && *old(pos) == *old(offset) ==> res
            is Ok && res->Ok_0@ == pid@,
{
}

/// A quality of service is made out of its number, and no other number is one.
pub proof fn law_qos_is_made_out_of_its_number(qos: QoS, code: u8, byte: u8, res: Result<QoS, Error>)
    requires
        call_ensures(QoS::as_u8, (&qos,), code),
        call_ensures(QoS::from_u8, (byte,), res),
    ensures
        code == match qos {
            QoS::AtMostOnce => 0int,
            QoS::AtLeastOnce => 1,
            QoS::ExactlyOnce => 2,
        },
        byte == code ==> res == Ok::<QoS, Error>(qos),
        res is Ok <==> byte <= 2,
        res matches Err(e) ==> e == Error::InvalidQos(byte),
{
}

} // verus!
