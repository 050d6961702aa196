//! How integers, strings and byte strings stand on the wire.
use vstd::prelude::*;

use vstd::string::StringSliceAdditionalSpecFns;

use super::error::Error;

verus! {

/// The largest value that a variable length integer can hold.
pub const MAX_VARINT: usize = 268_435_455;

/// A 16-bit integer, most significant byte first.
pub open spec fn u16_bytes(v: u16) -> Seq<u8> {
    seq![(v / 256) as u8, (v % 256) as u8]
}

/// A 32-bit integer, most significant byte first.
pub open spec fn u32_bytes(v: u32) -> Seq<u8> {
    seq![
        (v / 0x1000000) as u8,
        (v / 0x10000 % 256) as u8,
        (v / 0x100 % 256) as u8,
        (v % 256) as u8,
    ]
}

/// The 16-bit integer that two bytes hold.
pub open spec fn u16_of(high: u8, low: u8) -> u16 {
    (high * 256 + low) as u16
}

/// The 32-bit integer that four bytes hold.
pub open spec fn u32_of(a: u8, b: u8, c: u8, d: u8) -> u32 {
    (a * 0x1000000 + b * 0x10000 + c * 0x100 + d) as u32
}

/// A byte string: its length modulo 2^16 as a 16-bit integer, then its bytes.
pub open spec fn slice_bytes(s: Seq<u8>) -> Seq<u8> {
    u16_bytes((s.len() % 0x10000) as u16) + s
}

/// The first `groups` groups of seven bits of `v`, least significant first.
/// Every group but that which ends the integer has the top bit set.
pub open spec fn varint_groups(v: nat, groups: nat) -> Seq<u8>
    decreases groups,
{
    if groups == 0 {
        seq![]
    } else if v < 128 {
        seq![v as u8]
    } else {
        seq![(128 + v % 128) as u8] + varint_groups(v / 128, (groups - 1) as nat)
    }
}

/// A variable length integer: at most four groups.
pub open spec fn varint_bytes(v: nat) -> Seq<u8> {
    varint_groups(v, 4)
}

/// The number of bytes that a variable length integer takes.
pub open spec fn varint_size(v: nat) -> nat {
    if v < 128 {
        1
    } else if v < 16384 {
        2
    } else if v < 2097152 {
        3
    } else {
        4
    }
}

/// Calculates the length of a variable length integer (varint).
///
/// This function takes the integer value and returns the number of bytes required to encode it.
pub fn varint_len(len: usize) -> (n: usize)
    requires
        len <= MAX_VARINT,
    ensures
        n == varint_size(len as nat),
        n == varint_bytes(len as nat).len(),
{
    proof {
        lemma_varint_size(len as nat);
    }
    if len < 128 {
        1
    } else if len < 16384 {
        2
    } else if len < 2097152 {
        3
    } else {
        4
    }
}

/// What reading a variable length integer at the start of `s` gives: the
/// integer and the number of bytes it takes. `i` groups have been read before.
pub open spec fn varint_at(s: Seq<u8>, i: nat) -> Result<(nat, nat), Error>
    decreases s.len(),
{
    if s.len() == 0 {
        Err(Error::InsufficientBytes)
    } else if s[0] < 128 {
        Ok((s[0] as nat, 1))
    } else if i >= 3 {
        Err(Error::MalformedPacket)
    } else {
        match varint_at(s.skip(1), i + 1) {
            Ok((v, n)) => Ok(((s[0] - 128 + 128 * v) as nat, n + 1)),
            Err(e) => Err(e),
        }
    }
}

/// What reading a byte string at the start of `s` gives.
#[verifier::opaque]
pub open spec fn slice_at(s: Seq<u8>) -> Result<Seq<u8>, Error> {
    if s.len() < 2 || s.len() - 2 < u16_of(s[0], s[1]) {
        Err(Error::InsufficientBytes)
    } else {
        Ok(s.subrange(2, 2 + u16_of(s[0], s[1])))
    }
}

/// What reading a string at the start of `s` gives: the UTF-8 bytes of the
/// string.
#[verifier::opaque]
pub open spec fn str_at(s: Seq<u8>) -> Result<Seq<u8>, Error> {
    match slice_at(s) {
        Err(e) => Err(e),
        Ok(bytes) => if vstd::utf8::valid_utf8(bytes) {
            Ok(bytes)
        } else {
            Err(Error::InvalidString)
        },
    }
}

/// What reading a length-prefixed property block at the start of `s` gives:
/// the block, and the number of bytes of the block and its length.
pub open spec fn properties_at(s: Seq<u8>) -> Result<(Seq<u8>, nat), Error> {
    match varint_at(s, 0) {
        Err(e) => Err(e),
        Ok((v, n)) => if s.len() - n < v {
            Err(Error::InsufficientBytes)
        } else {
            Ok((s.subrange(n as int, (n + v) as int), n + v))
        },
    }
}

/// A property block with its length in front of it.
pub open spec fn properties_bytes(block: Seq<u8>) -> Seq<u8> {
    varint_bytes(block.len()) + block
}

/// Pieces one after the other.
pub open spec fn concat(pieces: Seq<Seq<u8>>) -> Seq<u8>
    decreases pieces.len(),
{
    if pieces.len() == 0 {
        seq![]
    } else {
        pieces[0] + concat(pieces.skip(1))
    }
}

pub proof fn lemma_concat_split(pieces: Seq<Seq<u8>>, i: int)
    requires
        0 <= i <= pieces.len(),
    ensures
        concat(pieces) == concat(pieces.take(i)) + concat(pieces.skip(i)),
        i < pieces.len() ==> concat(pieces.take(i + 1)) == concat(pieces.take(i)) + pieces[i],
        i < pieces.len() ==> concat(pieces.take(i)).len() + pieces[i].len() <= concat(pieces).len(),
        concat(pieces.take(i)).len() <= concat(pieces).len(),
        i == 0 ==> concat(pieces.take(i)) == Seq::<u8>::empty(),
        i == pieces.len() ==> concat(pieces.take(i)) == concat(pieces),
{
    lemma_concat_take_skip(pieces, i);
    if i < pieces.len() {
        lemma_concat_take_skip(pieces, i + 1);
        lemma_concat_take_skip(pieces.take(i + 1), i);
        let last = pieces.take(i + 1).skip(i);
        assert(concat(last.skip(1)) =~= Seq::<u8>::empty());
        assert(concat(last) == last[0] + concat(last.skip(1)));
        assert(concat(last) =~= pieces[i]);
        assert(pieces.take(i + 1).take(i) =~= pieces.take(i));
    } else {
        assert(pieces.take(i) =~= pieces);
    }
}

proof fn lemma_concat_take_skip(pieces: Seq<Seq<u8>>, i: int)
    requires
        0 <= i <= pieces.len(),
    ensures
        concat(pieces) == concat(pieces.take(i)) + concat(pieces.skip(i)),
    decreases i,
{
    if i == 0 {
        assert(pieces.skip(0) =~= pieces);
        assert(concat(pieces) =~= concat(pieces.take(0)) + concat(pieces.skip(0)));
    } else {
        lemma_concat_take_skip(pieces.skip(1), i - 1);
        assert(pieces.take(i).skip(1) =~= pieces.skip(1).take(i - 1));
        assert(pieces.skip(1).skip(i - 1) =~= pieces.skip(i));
        assert(concat(pieces) =~= concat(pieces.take(i)) + concat(pieces.skip(i)));
    }
}

pub proof fn lemma_varint_size(v: nat)
    ensures
        varint_bytes(v).len() == varint_size(v),
{
    reveal_with_fuel(varint_groups, 5);
}

pub proof fn lemma_varint_at_bounds(s: Seq<u8>, i: nat)
    ensures
        varint_at(s, i) matches Ok((v, n)) ==> 1 <= n <= s.len() && n <= 4 && (i <= 3 ==> n + i <= 4)
            && v <= MAX_VARINT && (i >= 3 ==> v < 128) && (i == 2 ==> v < 16384) && (i == 1 ==> v
            < 2097152),
    decreases s.len(),
{
    if s.len() > 0 && s[0] >= 128 && i < 3 {
        lemma_varint_at_bounds(s.skip(1), i + 1);
    }
}

proof fn lemma_varint_groups_read_back(v: nat, i: nat, rest: Seq<u8>)
    requires
        i <= 3,
        i == 3 ==> v < 128,
        i == 2 ==> v < 16384,
        i == 1 ==> v < 2097152,
        v <= MAX_VARINT,
    ensures
        varint_at(varint_groups(v, (4 - i) as nat) + rest, i) == Ok::<(nat, nat), Error>(
            (v, varint_groups(v, (4 - i) as nat).len()),
        ),
    decreases 4 - i,
{
    let s = varint_groups(v, (4 - i) as nat) + rest;
    if v >= 128 {
        let tail = varint_groups(v / 128, (3 - i) as nat);
        assert(s.skip(1) =~= tail + rest);
        lemma_varint_groups_read_back(v / 128, i + 1, rest);
    }
}

/// Reading a variable length integer gives back what writing it wrote, with
/// nothing read of what follows.
pub proof fn law_varint_round_trip(v: nat, rest: Seq<u8>)
    requires
        v <= MAX_VARINT,
    ensures
        varint_at(varint_bytes(v) + rest, 0) == Ok::<(nat, nat), Error>((v, varint_size(v))),
{
    lemma_varint_size(v);
    lemma_varint_groups_read_back(v, 0, rest);
}

/// Reading a 16-bit integer gives back what writing it wrote.
pub proof fn law_u16_round_trip(v: u16)
    ensures
        u16_of(u16_bytes(v)[0], u16_bytes(v)[1]) == v,
{
}

/// Reading a 32-bit integer gives back what writing it wrote.
pub proof fn law_u32_round_trip(v: u32)
    ensures
        u32_of(u32_bytes(v)[0], u32_bytes(v)[1], u32_bytes(v)[2], u32_bytes(v)[3]) == v,
{
}

/// Reading a byte string of at most 65535 bytes gives back what writing it
/// wrote, with nothing read of what follows.
pub proof fn law_slice_round_trip(s: Seq<u8>, rest: Seq<u8>)
    requires
        s.len() <= 0xffff,
    ensures
        slice_at(slice_bytes(s) + rest) == Ok::<Seq<u8>, Error>(s),
{
    reveal(slice_at);
    let w = slice_bytes(s) + rest;
    law_u16_round_trip(s.len() as u16);
    assert(w[0] == u16_bytes(s.len() as u16)[0]);
    assert(w[1] == u16_bytes(s.len() as u16)[1]);
    assert(w.subrange(2, 2 + s.len() as int) =~= s);
}

/// Reading a string of at most 65535 bytes gives back what writing it wrote,
/// with nothing read of what follows.
pub proof fn law_str_round_trip(s: Seq<u8>, rest: Seq<u8>)
    requires
        s.len() <= 0xffff,
        vstd::utf8::valid_utf8(s),
    ensures
        str_at(slice_bytes(s) + rest) == Ok::<Seq<u8>, Error>(s),
{
    reveal(str_at);
    law_slice_round_trip(s, rest);
}

/// A byte string, or a string, that can be read is no longer than the buffer.
pub proof fn lemma_slice_at_bounds(s: Seq<u8>)
    ensures
        slice_at(s) matches Ok(bytes) ==> 2 + bytes.len() <= s.len(),
        str_at(s) matches Ok(bytes) ==> 2 + bytes.len() <= s.len(),
{
    reveal(slice_at);
    reveal(str_at);
}

/// Reading a property block gives back what writing it wrote, with nothing read
/// of what follows.
pub proof fn law_properties_round_trip(block: Seq<u8>, rest: Seq<u8>)
    requires
        block.len() <= MAX_VARINT,
    ensures
        properties_at(properties_bytes(block) + rest) == Ok::<(Seq<u8>, nat), Error>(
            (block, properties_bytes(block).len()),
        ),
{
    let n = varint_size(block.len());
    lemma_varint_size(block.len());
    law_varint_round_trip(block.len(), block + rest);
    assert(properties_bytes(block) + rest =~= varint_bytes(block.len()) + (block + rest));
    assert((properties_bytes(block) + rest).subrange(n as int, (n + block.len()) as int) =~= block);
}

/// Reads a variable length integer at the start of `buf`.
pub(crate) fn read_varint_at(buf: &[u8], start: usize) -> (res: Result<(usize, usize), Error>)
    requires
        start <= buf@.len(),
    ensures
        match (res, varint_at(buf@.skip(start as int), 0)) {
            (Ok((v, n)), Ok((w, m))) => v == w && n == m && start + n <= buf@.len() && buf@.len()
                <= usize::MAX,
            (Err(e), Err(f)) => e == f,
            _ => false,
        },
{
    let ghost s = buf@.skip(start as int);
    let total: usize = buf.len();
    let mut integer: usize = 0;
    let mut unit: usize = 1;
    let mut i: usize = 0;
    assert(s.skip(0) =~= s);
    while i < total - start
        invariant
            i < 4,
            start + i <= buf@.len(),
            s == buf@.skip(start as int),
            unit == if i == 0 {
                1int
            } else if i == 1 {
                128
            } else if i == 2 {
                16384
            } else {
                2097152
            },
            integer < unit,
            buf@.len() == total,
            varint_at(s, 0) == match varint_at(s.skip(i as int), i as nat) {
                Ok((v, n)) => Ok::<(nat, nat), Error>(((integer + unit * v) as nat, n + i as nat)),
                Err(e) => Err(e),
            },
        decreases 4 - i,
    {
        let byte: u8 = buf[start + i];
        let ghost rest = s.skip(i as int);
        assert(rest[0] == byte);
        proof {
            lemma_varint_at_bounds(rest.skip(1), (i + 1) as nat);
            assert(rest.skip(1) =~= s.skip(i + 1));
        }
        if byte < 128 {
            assert(unit * byte <= 2097152 * 127) by (nonlinear_arith)
                requires
                    unit <= 2097152,
                    byte <= 127,
            ;
            return Ok((integer + unit * (byte as usize), i + 1));
        }
        if i == 3 {
            return Err(Error::MalformedPacket);
        }
        let group: usize = (byte - 128) as usize;
        assert(unit * group <= unit * 127) by (nonlinear_arith)
            requires
                group <= 127,
        ;
        proof {
            if let Ok((v, n)) = varint_at(s.skip(i + 1), (i + 1) as nat) {
                assert(integer + unit * (group + 128 * v) == (integer + unit * group) + (unit * 128)
                    * v) by (nonlinear_arith);
            }
        }
        integer = integer + unit * group;
        unit = unit * 128;
        i = i + 1;
    }
    assert(s.skip(i as int).len() == 0);
    Err(Error::InsufficientBytes)
}

/// Calls `core::str::from_utf8`, which hands the bytes back as a string slice
/// if they are valid UTF-8, and fails if they are not.
#[verifier::external_body]
pub(crate) fn utf8_str(bytes: &[u8]) -> (res: Option<&str>)
    ensures
        match res {
            Some(s) => vstd::utf8::valid_utf8(bytes@) && s.spec_bytes() == bytes@,
            None => !vstd::utf8::valid_utf8(bytes@),
        },
{
    core::str::from_utf8(bytes).ok()
}

/// Reads a byte string at `start`.
pub(crate) fn read_slice_at(buf: &[u8], start: usize) -> (res: Result<&[u8], Error>)
    requires
        start <= buf@.len(),
    ensures
        match (res, slice_at(buf@.skip(start as int))) {
            (Ok(bytes), Ok(view)) => bytes@ == view && 2 + bytes@.len() <= buf@.len() - start
                && buf@.len() <= usize::MAX,
            (Err(e), Err(f)) => e == f,
            _ => false,
        },
{
    proof {
        reveal(slice_at);
    }
    if buf.len() - start < 2 {
        return Err(Error::InsufficientBytes);
    }
    let len: usize = buf[start] as usize * 256 + buf[start + 1] as usize;
    if buf.len() - start - 2 < len {
        return Err(Error::InsufficientBytes);
    }
    let bytes: &[u8] = &buf[start + 2..start + 2 + len];
    assert(bytes@ =~= buf@.skip(start as int).subrange(2, 2 + len as int));
    Ok(bytes)
}

/// Reads a string at `start`.
pub(crate) fn read_str_at(buf: &[u8], start: usize) -> (res: Result<&str, Error>)
    requires
        start <= buf@.len(),
    ensures
        match (res, str_at(buf@.skip(start as int))) {
            (Ok(s), Ok(view)) => s.spec_bytes() == view && 2 + view.len() <= buf@.len() - start,
            (Err(e), Err(f)) => e == f,
            _ => false,
        },
{
    proof {
        reveal(str_at);
    }
    match read_slice_at(buf, start) {
        Err(e) => Err(e),
        Ok(bytes) => match utf8_str(bytes) {
            Some(s) => Ok(s),
            None => Err(Error::InvalidString),
        },
    }
}

/// Integers of 16 and 32 bits stand on the wire with their most significant
/// byte first, and are read like that.
pub proof fn law_integers_stand_big_endian(v: u16, w: u32, a: u8, b: u8, c: u8, d: u8)
    ensures
        u16_bytes(v).len() == 2,
        u16_bytes(v)[0] * 256 + u16_bytes(v)[1] == v,
        u16_of(a, b) == a * 256 + b,
        u32_bytes(w).len() == 4,
        ((u32_bytes(w)[0] * 256 + u32_bytes(w)[1]) * 256 + u32_bytes(w)[2]) * 256 + u32_bytes(w)[3]
            == w,
        u32_of(a, b, c, d) == ((a * 256 + b) * 256 + c) * 256 + d,
{
}

/// A byte string stands on the wire behind its length. It is read from there if
/// all of it is there, and a string is if its bytes are UTF-8, too.
pub proof fn law_strings_stand_behind_their_length(bytes: Seq<u8>, s: Seq<u8>)
    ensures
        bytes.len() <= 0xffff ==> {
            let wire = slice_bytes(bytes);
            &&& wire.len() == 2 + bytes.len()
            &&& wire[0] * 256 + wire[1] == bytes.len()
            &&& wire.skip(2) == bytes
        },
        slice_at(s) == if 2 <= s.len() && 2 + s[0] * 256 + s[1] <= s.len() {
            Ok(s.subrange(2, 2 + s[0] * 256 + s[1]))
        } else {
            Err(Error::InsufficientBytes)
        },
        str_at(s) is Ok <==> slice_at(s) is Ok && vstd::utf8::valid_utf8(slice_at(s)->Ok_0),
        str_at(s) is Ok ==> str_at(s) == slice_at(s),
        slice_at(s) is Err ==> str_at(s) == slice_at(s),
        slice_at(s) is Ok && str_at(s) is Err ==> str_at(s) == Err::<Seq<u8>, Error>(
            Error::InvalidString,
        ),
{
    reveal(slice_at);
    reveal(str_at);
    if bytes.len() <= 0xffff {
        assert(slice_bytes(bytes).skip(2) =~= bytes);
    }
}

/// A variable length integer stands on the wire in groups of seven bits, the
/// least significant one first, in as few bytes as possible. Every byte but the
/// last one has its top bit set.
pub proof fn law_varint_on_the_wire(v: nat)
    requires
        v <= MAX_VARINT,
    ensures
        ({
            let b = varint_bytes(v);
            let n = b.len();
            &&& 1 <= n <= 4
            &&& n == 1 ==> v == b[0]
            &&& n == 2 ==> v == b[0] - 128 + 128 * b[1]
            &&& n == 3 ==> v == b[0] - 128 + 128 * (b[1] - 128) + 16384 * b[2]
            &&& n == 4 ==> v == b[0] - 128 + 128 * (b[1] - 128) + 16384 * (b[2] - 128) + 2097152
                * b[3]
            &&& forall|i: int| 0 <= i < n - 1 ==> #[trigger] b[i] >= 128
            &&& b[n - 1] < 128
            &&& n > 1 ==> b[n - 1] != 0
            &&& varint_size(v) == n
        }),
{
    reveal_with_fuel(varint_groups, 5);
}

/// A variable length integer is read up to the first byte whose top bit is not
/// set, which is the fourth one at the latest.
pub proof fn law_varint_is_read(s: Seq<u8>)
    ensures
        varint_at(s, 0) == if s.len() >= 1 && s[0] < 128 {
            Ok((s[0] as nat, 1nat))
        } else if s.len() >= 2 && s[1] < 128 {
            Ok(((s[0] - 128 + 128 * s[1]) as nat, 2nat))
        } else if s.len() >= 3 && s[2] < 128 {
            Ok(((s[0] - 128 + 128 * (s[1] - 128) + 16384 * s[2]) as nat, 3nat))
        } else if s.len() >= 4 && s[3] < 128 {
            Ok(
                (
                    (s[0] - 128 + 128 * (s[1] - 128) + 16384 * (s[2] - 128) + 2097152
                        * s[3]) as nat,
                    4nat,
                ),
            )
        } else if s.len() >= 4 {
            Err(Error::MalformedPacket)
        } else {
            Err(Error::InsufficientBytes)
        },
{
    reveal_with_fuel(varint_at, 5);
    if s.len() >= 2 {
        assert(s.skip(1)[0] == s[1]);
    }
    if s.len() >= 3 {
        assert(s.skip(1).skip(1)[0] == s[2]);
    }
    if s.len() >= 4 {
        assert(s.skip(1).skip(1).skip(1)[0] == s[3]);
    }
}

/// A property block stands on the wire behind its length, and is read if all of
/// it is there.
pub proof fn law_blocks_stand_behind_their_length(block: Seq<u8>, s: Seq<u8>)
    ensures
        properties_bytes(block) == varint_bytes(block.len()) + block,
        properties_at(s) is Ok <==> varint_at(s, 0) is Ok && varint_at(s, 0)->Ok_0.0 + varint_at(
            s,
            0,
        )->Ok_0.1 <= s.len(),
        properties_at(s) matches Ok((found, n)) ==> {
            let (v, m) = varint_at(s, 0)->Ok_0;
            &&& found == s.subrange(m as int, (m + v) as int)
            &&& n == m + v
        },
        varint_at(s, 0) matches Err(e) ==> properties_at(s) == Err::<(Seq<u8>, nat), Error>(e),
        varint_at(s, 0) is Ok && properties_at(s) is Err ==> properties_at(s) == Err::<
            (Seq<u8>, nat),
            Error,
        >(Error::InsufficientBytes),
{
    lemma_varint_at_bounds(s, 0);
}

/// Pieces that are joined follow each other without a gap: each of them is
/// found behind all the ones in front of it.
pub proof fn law_pieces_follow_each_other(pieces: Seq<Seq<u8>>, i: int)
    requires
        0 <= i < pieces.len(),
    ensures
        concat(pieces).subrange(
            concat(pieces.take(i)).len() as int,
            (concat(pieces.take(i)).len() + pieces[i].len()) as int,
        ) == pieces[i],
        concat(pieces.take(i + 1)).len() == concat(pieces.take(i)).len() + pieces[i].len(),
        concat(pieces.take(0)).len() == 0,
        concat(pieces.take(pieces.len() as int)) == concat(pieces),
{
    lemma_concat_split(pieces, 0);
    lemma_concat_split(pieces, i);
    lemma_concat_split(pieces, i + 1);
    lemma_concat_split(pieces, pieces.len() as int);
    let front = concat(pieces.take(i));
    let s = concat(pieces);
    assert(s == front + pieces[i] + concat(pieces.skip(i + 1)));
    assert(s.subrange(front.len() as int, (front.len() + pieces[i].len()) as int) =~= pieces[i]);
}

} // verus!
