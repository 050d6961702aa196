use vstd::prelude::*;
use vstd::string::StringSliceAdditionalSpecFns;

use super::utils::Error;
use crate::encoding::wire::{slice_bytes, u16_bytes, varint_bytes, varint_groups, varint_len, MAX_VARINT};
use crate::pubsub::channel::splice;

verus! {

/// Whether writing `bytes` at an offset takes a buffer from one state to
/// another and has this result: everything is written if it fits, and if not,
/// as much of it as does, up to the end of the buffer.
pub open spec fn written_at(
    before: Seq<u8>,
    offset: usize,
    after: Seq<u8>,
    offset_after: usize,
    bytes: Seq<u8>,
    res: Result<(), Error>,
) -> bool {
    &&& after.len() == before.len()
    &&& if offset + bytes.len() <= before.len() {
        &&& res == Ok::<(), Error>(())
        &&& offset_after == offset + bytes.len()
        &&& after == splice(before, offset as int, bytes)
    } else {
        &&& res == Err::<(), Error>(Error::WriteZero)
        &&& offset_after == before.len()
        &&& after == splice(before, offset as int, bytes.take(before.len() - offset))
    }
}

/// What does not fit on its own stops at the same byte with more behind it.
pub(crate) proof fn lemma_stops_at_the_end(first: Seq<u8>, second: Seq<u8>, room: int)
    requires
        0 <= room,
    ensures
        room < first.len() ==> (first + second).take(room) == first.take(room),
{
    if room < first.len() {
        assert((first + second).take(room) =~= first.take(room));
    }
}

/// Writing one thing after another is writing both.
pub(crate) proof fn lemma_written_in_turn(
    before: Seq<u8>,
    offset: usize,
    middle: Seq<u8>,
    first: Seq<u8>,
    after: Seq<u8>,
    offset_after: usize,
    second: Seq<u8>,
    res: Result<(), Error>,
)
    requires
        offset + first.len() <= before.len(),
        middle == splice(before, offset as int, first),
        written_at(
            middle,
            (offset + first.len()) as usize,
            after,
            offset_after,
            second,
            res,
        ),
        before.len() <= usize::MAX,
    ensures
        written_at(before, offset, after, offset_after, first + second, res),
{
    let bytes = first + second;
    if offset + bytes.len() <= before.len() {
        assert(after =~= splice(before, offset as int, bytes));
    } else {
        assert(after =~= splice(before, offset as int, bytes.take(before.len() - offset)));
    }
}

/// Checks whether the buffer has `len` bytes of write capacity left.
pub(crate) fn check_remaining(buf: &[u8], offset: usize, len: usize) -> (res: Result<(), Error>)
    requires
        offset <= buf@.len(),
    ensures
        res == if buf@.len() - offset < len {
            Err::<(), Error>(Error::WriteZero)
        } else {
            Ok(())
        },
{
    if buf.len() - offset < len {
        Err(Error::WriteZero)
    } else {
        Ok(())
    }
}

pub(crate) fn write_u8(buf: &mut [u8], offset: &mut usize, val: u8) -> (res: Result<(), Error>)
    requires
        *old(offset) <= old(buf)@.len(),
    ensures
        written_at(old(buf)@, *old(offset), final(buf)@, *final(offset), seq![val], res),
{
    let ghost before = buf@;
    if *offset >= buf.len() {
        assert(buf@ =~= splice(before, *offset as int, seq![val].take(0)));
        return Err(Error::WriteZero);
    }
    buf[*offset] = val;
    assert(buf@ =~= splice(before, *offset as int, seq![val]));
    *offset = *offset + 1;
    Ok(())
}

pub(crate) fn write_raw(buf: &mut [u8], offset: &mut usize, bytes: &[u8]) -> (res: Result<
    (),
    Error,
>)
    requires
        *old(offset) <= old(buf)@.len(),
    ensures
        written_at(old(buf)@, *old(offset), final(buf)@, *final(offset), bytes@, res),
{
    let ghost before = buf@;
    let ghost start = *offset;
    let mut i: usize = 0;
    assert(buf@ =~= splice(before, start as int, bytes@.take(0)));
    while i < bytes.len()
        invariant
            i <= bytes@.len(),
            before == old(buf)@,
            start == *old(offset),
            buf@.len() == before.len(),
            *offset == start + i,
            *offset <= before.len(),
            buf@ == splice(before, start as int, bytes@.take(i as int)),
        decreases bytes@.len() - i,
    {
        if *offset >= buf.len() {
            return Err(Error::WriteZero);
        }
        let val: u8 = bytes[i];
        buf[*offset] = val;
        *offset = *offset + 1;
        i = i + 1;
        assert(buf@ =~= splice(before, start as int, bytes@.take(i as int)));
    }
    assert(bytes@.take(i as int) =~= bytes@);
    Ok(())
}

pub(crate) fn write_u16(buf: &mut [u8], offset: &mut usize, val: u16) -> (res: Result<(), Error>)
    requires
        *old(offset) <= old(buf)@.len(),
    ensures
        written_at(old(buf)@, *old(offset), final(buf)@, *final(offset), u16_bytes(val), res),
{
    let bytes: [u8; 2] = [(val / 256) as u8, (val % 256) as u8];
    assert(bytes@ =~= u16_bytes(val));
    write_raw(buf, offset, bytes.as_slice())
}

pub(crate) fn write_bytes(buf: &mut [u8], offset: &mut usize, bytes: &[u8]) -> (res: Result<
    (),
    Error,
>)
    requires
        *old(offset) <= old(buf)@.len(),
    ensures
        written_at(
            old(buf)@,
            *old(offset),
            final(buf)@,
            *final(offset),
            slice_bytes(bytes@),
            res,
        ),
{
    let total: usize = buf.len();
    let ghost before = buf@;
    let ghost start = *offset;
    let len: u16 = (bytes.len() % 0x10000) as u16;
    proof {
        lemma_stops_at_the_end(u16_bytes(len), bytes@, total - start);
    }
    write_u16(buf, offset, len)?;
    let ghost middle = buf@;
    let res: Result<(), Error> = write_raw(buf, offset, bytes);
    proof {
        lemma_written_in_turn(
            before,
            start,
            middle,
            u16_bytes(len),
            buf@,
            *offset,
            bytes@,
            res,
        );
    }
    res
}

pub(crate) fn write_string(buf: &mut [u8], offset: &mut usize, string: &str) -> (res: Result<
    (),
    Error,
>)
    requires
        *old(offset) <= old(buf)@.len(),
    ensures
        written_at(
            old(buf)@,
            *old(offset),
            final(buf)@,
            *final(offset),
            slice_bytes(string.spec_bytes()),
            res,
        ),
{
    write_bytes(buf, offset, string.as_bytes())
}

/// Writes the remaining length of a packet, if there is enough capacity for
/// that many bytes behind it. Returns how many bytes it and they take.
pub(crate) fn write_length(buf: &mut [u8], offset: &mut usize, len: usize) -> (res: Result<
    usize,
    Error,
>)
    requires
        *old(offset) <= old(buf)@.len(),
    ensures
        final(buf)@.len() == old(buf)@.len(),
        if len > MAX_VARINT {
            &&& res == Err::<usize, Error>(Error::InvalidLength)
            &&& final(buf)@ == old(buf)@
            &&& *final(offset) == *old(offset)
        } else if old(buf)@.len() - *old(offset) < len + varint_bytes(len as nat).len() {
            &&& res == Err::<usize, Error>(Error::WriteZero)
            &&& final(buf)@ == old(buf)@
            &&& *final(offset) == *old(offset)
        } else {
            &&& res == Ok::<usize, Error>((len + varint_bytes(len as nat).len()) as usize)
            &&& final(buf)@ == splice(
                old(buf)@,
                *old(offset) as int,
                varint_bytes(len as nat),
            )
            &&& *final(offset) == *old(offset) + varint_bytes(len as nat).len()
        },
{
    if len > MAX_VARINT {
        return Err(Error::InvalidLength);
    }
    let write_len: usize = len + varint_len(len);
    check_remaining(buf, *offset, write_len)?;
    let ghost before = buf@;
    let ghost start = *offset;
    let ghost whole = varint_bytes(len as nat);
    let mut x: usize = len;
    let mut n: usize = 0;
    assert(buf@ =~= splice(before, start as int, whole.take(0)));
    assert(whole.skip(0) =~= whole);
    loop
        invariant_except_break
            n < 4,
            n < whole.len(),
            *offset == start + n,
            n == 0 ==> x <= MAX_VARINT,
            n == 1 ==> x < 2097152,
            n == 2 ==> x < 16384,
            n == 3 ==> x < 128,
            buf@ == splice(before, start as int, whole.take(n as int)),
            whole.skip(n as int) == varint_groups(x as nat, (4 - n) as nat),
        invariant
            whole.len() <= 4,
            buf@.len() == before.len(),
            start + whole.len() <= before.len(),
        ensures
            buf@ == splice(before, start as int, whole),
            *offset == start + whole.len(),
        decreases 4 - n,
    {
        let more: bool = x >= 128;
        let byte: u8 = if more {
            (x % 128) as u8 + 128
        } else {
            (x % 128) as u8
        };
        let ghost left = whole.skip(n as int);
        assert(whole[n as int] == left[0]);
        buf[*offset] = byte;
        *offset = *offset + 1;
        n = n + 1;
        assert(buf@ =~= splice(before, start as int, whole.take(n as int)));
        if !more {
            assert(left.len() == 1);
            assert(whole.take(n as int) =~= whole);
            break;
        }
        x = x / 128;
        assert(left.skip(1) =~= whole.skip(n as int));
        assert(left.skip(1) =~= varint_groups(x as nat, (4 - n) as nat));
    }
    Ok(write_len)
}

/// What is written stands at the offset and the rest of the buffer is as it was.
/// If it does not fit, the buffer is filled up to its end, and that is an error.
pub proof fn law_what_is_written_stands_at_the_offset(
    before: Seq<u8>,
    offset: usize,
    after: Seq<u8>,
    offset_after: usize,
    bytes: Seq<u8>,
    res: Result<(), Error>,
    i: int,
)
    requires
        offset <= before.len(),
        written_at(before, offset, after, offset_after, bytes, res),
        0 <= i < before.len(),
    ensures
        res is Ok <==> bytes.len() <= before.len() - offset,
        res matches Err(e) ==> e == Error::WriteZero,
        after.len() == before.len(),
        offset_after == if res is Ok {
            offset + bytes.len()
        } else {
            before.len() as int
        },
        after[i] == if offset <= i < offset + bytes.len() {
            bytes[i - offset]
        } else {
            before[i]
        },
{
}

} // verus!
