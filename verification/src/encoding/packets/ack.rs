//! What the packets that acknowledge a publication have in common.
use vstd::prelude::*;

use crate::encoding::decoder::{advanced, MqttDecoder};
use crate::encoding::encoder::{appends, MqttEncoder};
use crate::encoding::error::Error;
use crate::encoding::properties::Properties;
use crate::encoding::utils::Pid;
use crate::encoding::wire::{
    law_properties_round_trip, law_u16_round_trip, lemma_varint_size, properties_at,
    properties_bytes, u16_bytes, u16_of, MAX_VARINT,
};

verus! {

/// An acknowledgement with a reason.
pub ghost struct AckView<R> {
    pub pid: u16,
    pub reason_code: R,
    pub properties: Seq<u8>,
}

/// The body of an acknowledgement: the packet identifier, and then the reason
/// and the properties unless the reason is zero and there are no properties.
pub open spec fn ack_body(pid: u16, code: u8, block: Seq<u8>) -> Seq<u8> {
    if code != 0 || block.len() != 0 {
        u16_bytes(pid) + seq![code] + properties_bytes(block)
    } else {
        u16_bytes(pid)
    }
}

/// What reading a packet identifier at the start of `rest` gives.
pub open spec fn pid_at(rest: Seq<u8>) -> Result<u16, Error> {
    if rest.len() < 2 {
        Err(Error::InsufficientBytes)
    } else if u16_of(rest[0], rest[1]) == 0 {
        Err(Error::BadIdentifier(0))
    } else {
        Ok(u16_of(rest[0], rest[1]))
    }
}

/// What reading the body of an acknowledgement at the start of `rest` gives:
/// the packet identifier, the number of the reason and the property block.
pub open spec fn ack_at(remaining_len: usize, rest: Seq<u8>) -> Result<
    (u16, u8, Seq<u8>),
    Error,
> {
    match pid_at(rest) {
        Err(e) => Err(e),
        Ok(pid) => if remaining_len == 2 || remaining_len == 3 {
            Ok((pid, 0, Seq::empty()))
        } else if rest.len() < 3 {
            Err(Error::InsufficientBytes)
        } else {
            match properties_at(rest.skip(3)) {
                Err(e) => Err(e),
                Ok((block, _)) => Ok((pid, rest[2], block)),
            }
        },
    }
}

/// Reading an acknowledgement gives back what writing it wrote.
pub proof fn law_ack_round_trip(pid: u16, code: u8, block: Seq<u8>, rest: Seq<u8>)
    requires
        pid != 0,
        block.len() <= MAX_VARINT,
    ensures
        ack_at(ack_body(pid, code, block).len() as usize, ack_body(pid, code, block) + rest) == Ok::<
            (u16, u8, Seq<u8>),
            Error,
        >((pid, code, block)),
{
    let body = ack_body(pid, code, block);
    let s = body + rest;
    law_u16_round_trip(pid);
    lemma_varint_size(block.len());
    assert(s[0] == u16_bytes(pid)[0]);
    assert(s[1] == u16_bytes(pid)[1]);
    if code != 0 || block.len() != 0 {
        assert(s[2] == code);
        assert(s.skip(3) =~= properties_bytes(block) + rest);
        law_properties_round_trip(block, rest);
    } else {
        assert(block =~= Seq::<u8>::empty());
    }
}

/// Writes the body of an acknowledgement.
pub(crate) fn write_ack(
    encoder: &mut MqttEncoder<'_>,
    pid: Pid,
    code: u8,
    properties: &Properties<'_>,
) -> (res: Result<(), Error>)
    requires
        old(encoder).wf(),
        properties.valid(),
    ensures
        appends(*old(encoder), *final(encoder), ack_body(pid@, code, properties.block()), res),
        (*final(final(encoder).target()))@ == (*final(old(encoder).target()))@,
{
    encoder.write_u16(pid.get())?;
    if code != 0 || properties.size() != 0 {
        encoder.write_u8(code)?;
        encoder.write_properties(properties)?;
        assert(encoder.written() =~= old(encoder).written() + ack_body(
            pid@,
            code,
            properties.block(),
        ));
    }
    Ok(())
}

/// Returns the length of the body of an acknowledgement.
pub(crate) fn ack_len(code: u8, properties: &Properties<'_>) -> (n: usize)
    requires
        properties.valid(),
    ensures
        forall|pid: u16| n == (#[trigger] ack_body(pid, code, properties.block())).len(),
{
    proof {
        lemma_varint_size(properties.block().len());
    }
    let mut length: usize = 2;
    if code != 0 || properties.size() != 0 {
        // Reason Code
        length = length + 1;

        // Properties
        length = length + crate::encoding::wire::varint_len(properties.size());
        length = length + properties.size();
    }
    length
}

/// Reads a packet identifier.
pub(crate) fn read_pid(decoder: &mut MqttDecoder<'_>) -> (res: Result<Pid, Error>)
    ensures
        final(decoder).same_packet(*old(decoder)),
        match (res, pid_at(old(decoder).rest())) {
            (Ok(pid), Ok(view)) => pid@ == view && advanced(*old(decoder), *final(decoder), 2),
            (Err(e), Err(f)) => e == f && final(decoder).pos() >= old(decoder).pos(),
            _ => false,
        },
{
    let raw: u16 = decoder.read_u16()?;
    Pid::try_from(raw)
}

/// Reads the body of an acknowledgement.
pub(crate) fn read_ack<'a>(decoder: &mut MqttDecoder<'a>) -> (res: Result<
    (Pid, u8, Properties<'a>),
    Error,
>)
    ensures
        final(decoder).same_packet(*old(decoder)),
        final(decoder).pos() >= old(decoder).pos(),
        match (res, ack_at(old(decoder).header().remaining_len, old(decoder).rest())) {
            (Ok((pid, code, properties)), Ok((pid_view, code_view, block))) => {
                &&& pid@ == pid_view
                &&& code == code_view
                &&& properties is DataBlock
                &&& properties.block() == block
            },
            (Err(e), Err(f)) => e == f,
            _ => false,
        },
{
    let ghost rest = decoder.rest();
    let remaining_len: usize = decoder.fixed_header().remaining_len;
    let pid: Pid = read_pid(decoder)?;
    assert(decoder.rest() =~= rest.skip(2));
    if remaining_len == 2 || remaining_len == 3 {
        Ok((pid, 0, Properties::default()))
    } else {
        let code: u8 = decoder.read_u8()?;
        assert(decoder.rest() =~= rest.skip(3));
        let properties: Properties<'a> = decoder.read_properties()?;
        Ok((pid, code, properties))
    }
}

} // verus!
