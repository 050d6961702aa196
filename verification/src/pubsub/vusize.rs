//! Integers of variable length, from one to nine bytes. The number of zero bits
//! that the first byte ends in tells the length.
use vstd::prelude::*;

verus! {

/// An integer in `n` bytes, the least significant one first.
pub open spec fn le_bytes(v: nat, n: nat) -> Seq<u8>
    decreases n,
{
    if n == 0 {
        seq![]
    } else {
        seq![(v % 256) as u8] + le_bytes(v / 256, (n - 1) as nat)
    }
}

/// The integer that bytes stand for, the least significant one first.
pub open spec fn le_value(s: Seq<u8>) -> nat
    decreases s.len(),
{
    if s.len() == 0 {
        0
    } else {
        s[0] as nat + 256 * le_value(s.skip(1))
    }
}

/// 256 to the power of `n`.
pub open spec fn pow256(n: nat) -> nat
    decreases n,
{
    if n == 0 {
        1
    } else {
        256 * pow256((n - 1) as nat)
    }
}

proof fn lemma_le_round_trip(v: nat, n: nat)
    requires
        v < pow256(n),
    ensures
        le_bytes(v, n).len() == n,
        le_value(le_bytes(v, n)) == v,
    decreases n,
{
    if n > 0 {
        lemma_le_round_trip(v / 256, (n - 1) as nat);
        assert(le_bytes(v, n).skip(1) =~= le_bytes(v / 256, (n - 1) as nat));
    }
}

proof fn lemma_le_bytes_len(v: nat, n: nat)
    ensures
        le_bytes(v, n).len() == n,
    decreases n,
{
    if n > 0 {
        lemma_le_bytes_len(v / 256, (n - 1) as nat);
    }
}

/// Two to the power of `n`, for lengths up to eight.
pub open spec fn pow2(n: nat) -> nat {
    if n == 1 {
        2
    } else if n == 2 {
        4
    } else if n == 3 {
        8
    } else if n == 4 {
        16
    } else if n == 5 {
        32
    } else if n == 6 {
        64
    } else if n == 7 {
        128
    } else {
        256
    }
}

/// The number of bytes that an integer takes.
pub open spec fn vusize_len(v: u64) -> nat {
    if v < 0x80 {
        1
    } else if v < 0x4000 {
        2
    } else if v < 0x20_0000 {
        3
    } else if v < 0x1000_0000 {
        4
    } else if v < 0x8_0000_0000 {
        5
    } else if v < 0x400_0000_0000 {
        6
    } else if v < 0x2_0000_0000_0000 {
        7
    } else if v < 0x100_0000_0000_0000 {
        8
    } else {
        9
    }
}

/// The number that the bytes of an integer of variable length stand for.
pub open spec fn shifted(v: u64, len: nat) -> nat {
    v as nat * pow2(len) + pow2(len) / 2
}

/// An integer in `len` bytes.
pub open spec fn vusize_bytes(v: u64, len: nat) -> Seq<u8> {
    if len >= 9 {
        seq![0u8] + le_bytes(v as nat, 8)
    } else {
        le_bytes(shifted(v, len), len)
    }
}

/// The number of bytes of an integer that starts with this byte.
pub open spec fn len_of(byte: u8) -> nat {
    if byte % 2 != 0 {
        1
    } else if byte % 4 != 0 {
        2
    } else if byte % 8 != 0 {
        3
    } else if byte % 16 != 0 {
        4
    } else if byte % 32 != 0 {
        5
    } else if byte % 64 != 0 {
        6
    } else if byte % 128 != 0 {
        7
    } else if byte != 0 {
        8
    } else {
        9
    }
}

/// The integer at the start of `s`.
pub open spec fn vusize_at(s: Seq<u8>) -> nat {
    let len = len_of(s[0]);
    if len == 9 {
        le_value(s.subrange(1, 9))
    } else {
        le_value(s.take(len as int)) / pow2(len)
    }
}

proof fn lemma_pow256()
    ensures
        pow256(1) == 0x100,
        pow256(2) == 0x1_0000,
        pow256(3) == 0x100_0000,
        pow256(4) == 0x1_0000_0000,
        pow256(5) == 0x100_0000_0000,
        pow256(6) == 0x1_0000_0000_0000,
        pow256(7) == 0x100_0000_0000_0000,
        pow256(8) == 0x1_0000_0000_0000_0000,
{
    reveal_with_fuel(pow256, 9);
}

proof fn lemma_shifted(v: u64, len: nat)
    requires
        vusize_len(v) <= len <= 8,
        1 <= len,
    ensures
        shifted(v, len) < pow256(len),
        shifted(v, len) <= u64::MAX,
        len_of((shifted(v, len) % 256) as u8) == len,
        shifted(v, len) / pow2(len) == v,
{
    lemma_pow256();
    let v = v as nat;
    if len == 1 {
        assert((v * 2 + 1) % 256 % 2 == 1);
    } else if len == 2 {
        assert((v * 4 + 2) % 256 % 4 == 2);
    } else if len == 3 {
        assert((v * 8 + 4) % 256 % 8 == 4);
    } else if len == 4 {
        assert((v * 16 + 8) % 256 % 16 == 8);
    } else if len == 5 {
        assert((v * 32 + 16) % 256 % 32 == 16);
    } else if len == 6 {
        assert((v * 64 + 32) % 256 % 64 == 32);
    } else if len == 7 {
        assert((v * 128 + 64) % 256 % 128 == 64);
    } else {
        assert((v * 256 + 128) % 256 == 128);
    }
}

/// Reading an integer gives back what writing it wrote, in any length that is
/// long enough for it, with nothing read of what follows.
pub proof fn law_vusize_round_trip(v: u64, len: nat, rest: Seq<u8>)
    requires
        vusize_len(v) <= len <= 9,
    ensures
        vusize_bytes(v, len).len() == len,
        len_of((vusize_bytes(v, len) + rest)[0]) == len,
        vusize_at(vusize_bytes(v, len) + rest) == v,
{
    let s = vusize_bytes(v, len) + rest;
    if len == 9 {
        lemma_pow256();
        lemma_le_round_trip(v as nat, 8);
        assert(s.subrange(1, 9) =~= le_bytes(v as nat, 8));
    } else {
        lemma_shifted(v, len);
        lemma_le_round_trip(shifted(v, len), len);
        assert(s.take(len as int) =~= vusize_bytes(v, len));
    }
}

/// Returns the number of bytes that an integer takes.
pub fn encoded_len(value: u64) -> (len: usize)
    ensures
        len == vusize_len(value),
        1 <= len <= 9,
{
    if value < 0x80 {
        1
    } else if value < 0x4000 {
        2
    } else if value < 0x20_0000 {
        3
    } else if value < 0x1000_0000 {
        4
    } else if value < 0x8_0000_0000 {
        5
    } else if value < 0x400_0000_0000 {
        6
    } else if value < 0x2_0000_0000_0000 {
        7
    } else if value < 0x100_0000_0000_0000 {
        8
    } else {
        9
    }
}

/// Returns the number of bytes of an integer that starts with this byte.
pub fn decoded_len(byte: u8) -> (len: usize)
    ensures
        len == len_of(byte),
        1 <= len <= 9,
{
    if byte % 2 != 0 {
        1
    } else if byte % 4 != 0 {
        2
    } else if byte % 8 != 0 {
        3
    } else if byte % 16 != 0 {
        4
    } else if byte % 32 != 0 {
        5
    } else if byte % 64 != 0 {
        6
    } else if byte % 128 != 0 {
        7
    } else if byte != 0 {
        8
    } else {
        9
    }
}

fn power(length: usize) -> (p: u64)
    requires
        1 <= length <= 8,
    ensures
        p == pow2(length as nat),
{
    match length {
        1 => 2,
        2 => 4,
        3 => 8,
        4 => 16,
        5 => 32,
        6 => 64,
        7 => 128,
        _ => 256,
    }
}

fn write_le(value: u64, start: usize, len: usize, slice: &mut [u8])
    requires
        start + len <= old(slice)@.len(),
    ensures
        final(slice)@ == old(slice)@.take(start as int) + le_bytes(value as nat, len as nat) + old(
            slice,
        )@.skip(start + len),
{
    let ghost before = slice@;
    let ghost whole = le_bytes(value as nat, len as nat);
    let total: usize = slice.len();
    proof {
        lemma_le_bytes_len(value as nat, len as nat);
    }
    let mut left: u64 = value;
    let mut i: usize = 0;
    assert(whole.skip(0) =~= whole);
    while i < len
        invariant
            i <= len,
            start + len <= total == slice@.len() == before.len(),
            whole.len() == len,
            whole.skip(i as int) == le_bytes(left as nat, (len - i) as nat),
            forall|j: int| 0 <= j < start ==> slice@[j] == before[j],
            forall|j: int| 0 <= j < i ==> slice@[start + j] == whole[j],
            forall|j: int| start + i <= j < before.len() ==> slice@[j] == before[j],
        decreases len - i,
    {
        let ghost rest = whole.skip(i as int);
        assert(whole[i as int] == rest[0]);
        slice[start + i] = (left % 256) as u8;
        left = left / 256;
        i = i + 1;
        assert(rest.skip(1) =~= whole.skip(i as int));
        assert(rest.skip(1) =~= le_bytes(left as nat, (len - i) as nat));
    }
    proof {
        let after = before.take(start as int) + whole + before.skip(start + len);
        assert forall|j: int| 0 <= j < after.len() implies slice@[j] == after[j] by {
            if start <= j < start + len {
                assert(slice@[start + (j - start)] == whole[j - start]);
            }
        }
        assert(slice@ =~= after);
    }
}

fn read_le(slice: &[u8], start: usize, len: usize) -> (value: u64)
    requires
        start + len <= slice@.len(),
        len <= 8,
    ensures
        value == le_value(slice@.subrange(start as int, start + len)),
{
    let total: usize = slice.len();
    let mut value: u64 = 0;
    let mut i: usize = len;
    proof {
        lemma_pow256();
        assert(slice@.subrange(start + len, start + len).len() == 0);
        assert(pow256(0) == 1);
    }
    while i > 0
        invariant
            i <= len <= 8,
            start + len <= total == slice@.len(),
            value == le_value(slice@.subrange(start + i, start + len)),
            value < pow256((len - i) as nat),
        decreases i,
    {
        proof {
            lemma_pow256();
            assert(pow256(0) == 1);
            let s = slice@.subrange(start + i - 1, start + len);
            assert(s.skip(1) =~= slice@.subrange(start + i, start + len));
            assert(pow256((len - i + 1) as nat) == 256 * pow256((len - i) as nat));
            assert(value < 0x100_0000_0000_0000);
        }
        i = i - 1;
        value = value * 256 + slice[start + i] as u64;
    }
    value
}

/// Writes an integer in `length` bytes to the start of `slice`.
pub fn encode_usize_to_slice(value: u64, length: usize, slice: &mut [u8])
    requires
        vusize_len(value) <= length <= 9,
        length <= old(slice)@.len(),
    ensures
        final(slice)@ == vusize_bytes(value, length as nat) + old(slice)@.skip(length as int),
{
    let ghost before = slice@;
    if length >= 9 {
        slice[0] = 0;
        write_le(value, 1, 8, slice);
        assert(slice@ =~= vusize_bytes(value, length as nat) + before.skip(9));
    } else {
        proof {
            lemma_shifted(value, length as nat);
            lemma_pow256();
        }
        let p: u64 = power(length);
        proof {
            lemma_product(value, length as nat);
        }
        let number: u64 = value * p + p / 2;
        write_le(number, 0, length, slice);
        assert(slice@ =~= vusize_bytes(value, length as nat) + before.skip(length as int));
    }
}

proof fn lemma_product(v: u64, len: nat)
    requires
        vusize_len(v) <= len <= 8,
        1 <= len,
    ensures
        v * pow2(len) + pow2(len) / 2 <= u64::MAX,
        v * pow2(len) <= u64::MAX,
{
    lemma_shifted(v, len);
}

/// Reads the integer at the start of `input`.
pub fn decode_usize(input: &[u8]) -> (value: u64)
    requires
        input@.len() > 0,
        len_of(input@[0]) <= input@.len(),
    ensures
        value == vusize_at(input@),
{
    let length: usize = decoded_len(input[0]);
    if length == 9 {
        read_le(input, 1, 8)
    } else {
        let number: u64 = read_le(input, 0, length);
        assert(input@.subrange(0, length as int) =~= input@.take(length as int));
        number / power(length)
    }
}

/// An integer takes the smallest number of bytes that has room for it: each byte
/// has room for seven bits, and nine bytes have room for any integer. What is
/// written in any number of bytes that is large enough is read back, and neither
/// more nor less of the bytes is used.
pub proof fn law_integers_take_seven_bits_per_byte(v: u64)
    ensures
        1 <= vusize_len(v) <= 9,
        vusize_len(v) == 1 <==> v < 128,
        vusize_len(v) <= 2 <==> v < 128 * 128,
        vusize_len(v) <= 3 <==> v < 128 * 128 * 128,
        vusize_len(v) <= 4 <==> v < 128 * 128 * 128 * 128,
        vusize_len(v) <= 5 <==> v < 128 * 128 * 128 * 128 * 128,
        vusize_len(v) <= 6 <==> v < 128 * 128 * 128 * 128 * 128 * 128,
        vusize_len(v) <= 7 <==> v < 128 * 128 * 128 * 128 * 128 * 128 * 128,
        vusize_len(v) <= 8 <==> v < 128 * 128 * 128 * 128 * 128 * 128 * 128 * 128,
{
}

/// The zero bits that the first byte ends in tell the number of bytes, one more
/// than there are of them.
pub proof fn law_first_byte_tells_the_length(byte: u8)
    ensures
        1 <= len_of(byte) <= 9,
        len_of(byte) == 9 <==> byte == 0,
        len_of(byte) > 1 <==> byte % 2 == 0,
        len_of(byte) > 2 <==> byte % 4 == 0,
        len_of(byte) > 3 <==> byte % 8 == 0,
        len_of(byte) > 4 <==> byte % 16 == 0,
        len_of(byte) > 5 <==> byte % 32 == 0,
        len_of(byte) > 6 <==> byte % 64 == 0,
        len_of(byte) > 7 <==> byte % 128 == 0,
{
}

/// The bytes of an integer that takes fewer than nine of them are those of its
/// value behind a bit that is set and as many zero bits as there are further
/// bytes, the least significant byte first.
pub proof fn law_integers_stand_little_endian(v: u64, len: nat)
    requires
        vusize_len(v) <= len <= 9,
    ensures
        vusize_bytes(v, len).len() == len,
        len == 1 ==> vusize_bytes(v, len)[0] == 2 * v + 1,
        len == 2 ==> vusize_bytes(v, len)[0] + 256 * vusize_bytes(v, len)[1] == 4 * v + 2,
        len == 3 ==> vusize_bytes(v, len)[0] + 256 * vusize_bytes(v, len)[1] + 65536
            * vusize_bytes(v, len)[2] == 8 * v + 4,
        len < 9 ==> le_value(vusize_bytes(v, len)) == v * pow2(len) + pow2(len) / 2,
        len == 9 ==> vusize_bytes(v, len)[0] == 0 && le_value(vusize_bytes(v, len).skip(1)) == v,
{
    law_vusize_round_trip(v, len, seq![]);
    if len == 9 {
        lemma_pow256();
        lemma_le_round_trip(v as nat, 8);
        assert(vusize_bytes(v, len).skip(1) =~= le_bytes(v as nat, 8));
    } else {
        lemma_shifted(v, len);
        lemma_le_round_trip(shifted(v, len), len);
        reveal_with_fuel(le_bytes, 4);
        reveal_with_fuel(le_value, 4);
        let s = vusize_bytes(v, len);
        if len == 2 {
            assert(s.skip(1)[0] == s[1]);
        }
        if len == 3 {
            assert(s.skip(1)[0] == s[1]);
            assert(s.skip(1).skip(1)[0] == s[2]);
        }
    }
}

/// Writing an integer in some number of bytes changes only these, and what is
/// read then is the integer, in the number of bytes that its first one tells.
pub proof fn law_written_integers_are_read(
    value: u64,
    length: usize,
    slice: &mut [u8],
    least: usize,
    told: usize,
    input: &[u8],
    read: u64,
    i: int,
)
    requires
        call_ensures(encoded_len, (value,), least),
        least <= length <= 9,
        length <= old(slice)@.len(),
        call_ensures(encode_usize_to_slice, (value, length, slice), ()),
        0 <= i < old(slice)@.len(),
        input@.len() > 0,
        len_of(input@[0]) <= input@.len(),
        call_ensures(decoded_len, (input@[0],), told),
        call_ensures(decode_usize, (input,), read),
    ensures
        final(slice)@.len() == old(slice)@.len(),
        length <= i ==> final(slice)@[i] == old(slice)@[i],
        input@ == final(slice)@ ==> read == value && told == length,
{
    let rest = old(slice)@.skip(length as int);
    law_vusize_round_trip(value, length as nat, rest);
    assert(length <= i ==> final(slice)@[i] == rest[i - length]);
}

} // verus!
