use vstd::prelude::*;

use crate::encoding::error::Error;

verus! {

/// What can be the payload of a `Publish` packet.
pub trait ToPayload {
    /// Whether the payload can be asked for its bytes.
    spec fn ready(&self) -> bool;

    /// Whether the payload may come out as these bytes, or this error, if there
    /// is room for `room` bytes.
    spec fn yields(&self, room: nat, out: Result<Seq<u8>, Error>) -> bool;

    /// The most bytes that the payload needs room for.
    spec fn bound(&self) -> nat;

    /// Writes the payload to the start of the buffer and returns its length.
    fn serialize(&self, buffer: &mut [u8]) -> (res: Result<usize, Error>)
        requires
            self.ready(),
        ensures
            final(buffer)@.len() == old(buffer)@.len(),
            match res {
                Ok(n) => n <= old(buffer)@.len() && self.yields(
                    old(buffer)@.len(),
                    Ok(final(buffer)@.take(n as int)),
                ),
                Err(e) => self.yields(old(buffer)@.len(), Err(e)),
            },
    ;

    /// Returns the most bytes that the payload needs room for.
    fn max_size(&self) -> (n: usize)
        ensures
            n == self.bound(),
    ;
}

/// Whether bytes may come out of a buffer with room for `room` bytes.
pub open spec fn bytes_yield(bytes: Seq<u8>, room: nat, out: Result<Seq<u8>, Error>) -> bool {
    out == if room < bytes.len() {
        Err::<Seq<u8>, Error>(Error::BufferSize)
    } else {
        Ok(bytes)
    }
}

/// Copies bytes to the start of a buffer.
fn copy_bytes(bytes: &[u8], buffer: &mut [u8]) -> (res: Result<usize, Error>)
    ensures
        final(buffer)@.len() == old(buffer)@.len(),
        match res {
            Ok(n) => {
                &&& n == bytes@.len()
                &&& n <= old(buffer)@.len()
                &&& final(buffer)@.take(n as int) == bytes@
                &&& final(buffer)@.skip(n as int) == old(buffer)@.skip(n as int)
            },
            Err(e) => {
                &&& e == Error::BufferSize
                &&& old(buffer)@.len() < bytes@.len()
                &&& final(buffer)@ == old(buffer)@
            },
        },
{
    if buffer.len() < bytes.len() {
        return Err(Error::BufferSize);
    }
    let mut i: usize = 0;
    while i < bytes.len()
        invariant
            i <= bytes@.len() <= buffer@.len(),
            buffer@.len() == old(buffer)@.len(),
            forall|k: int| 0 <= k < i ==> buffer@[k] == bytes@[k],
            forall|k: int| i <= k < buffer@.len() ==> buffer@[k] == old(buffer)@[k],
        decreases bytes@.len() - i,
    {
        buffer[i] = bytes[i];
        i = i + 1;
    }
    assert(buffer@.take(i as int) =~= bytes@);
    assert(buffer@.skip(i as int) =~= old(buffer)@.skip(i as int));
    Ok(i)
}

impl<'a> ToPayload for &'a [u8] {
    open spec fn ready(&self) -> bool {
        true
    }

    open spec fn yields(&self, room: nat, out: Result<Seq<u8>, Error>) -> bool {
        bytes_yield(self@, room, out)
    }

    open spec fn bound(&self) -> nat {
        self@.len()
    }

    fn serialize(&self, buffer: &mut [u8]) -> (res: Result<usize, Error>) {
        copy_bytes(self, buffer)
    }

    fn max_size(&self) -> (n: usize) {
        self.len()
    }
}

impl<const N: usize> ToPayload for [u8; N] {
    open spec fn ready(&self) -> bool {
        true
    }

    open spec fn yields(&self, room: nat, out: Result<Seq<u8>, Error>) -> bool {
        bytes_yield(self@, room, out)
    }

    open spec fn bound(&self) -> nat {
        N as nat
    }

    fn serialize(&self, buffer: &mut [u8]) -> (res: Result<usize, Error>) {
        copy_bytes(self.as_slice(), buffer)
    }

    fn max_size(&self) -> (n: usize) {
        N
    }
}

impl<'a, const N: usize> ToPayload for &'a [u8; N] {
    open spec fn ready(&self) -> bool {
        true
    }

    open spec fn yields(&self, room: nat, out: Result<Seq<u8>, Error>) -> bool {
        bytes_yield(self@, room, out)
    }

    open spec fn bound(&self) -> nat {
        N as nat
    }

    fn serialize(&self, buffer: &mut [u8]) -> (res: Result<usize, Error>) {
        copy_bytes(self.as_slice(), buffer)
    }

    fn max_size(&self) -> (n: usize) {
        N
    }
}

/// A payload that is written by a function once there is a buffer for it.
pub struct DeferredPayload<F: Fn(&mut [u8]) -> Result<usize, Error>> {
    func: F,
    max_len: usize,
}

impl<F: Fn(&mut [u8]) -> Result<usize, Error>> DeferredPayload<F> {
    /// The function that writes the payload.
    pub closed spec fn writer(&self) -> F {
        self.func
    }

    /// Makes a payload of a function that writes up to `max_len` bytes to the
    /// start of a buffer and returns their number.
    pub fn new(func: F, max_len: usize) -> (payload: Self)
        ensures
            payload.writer() == func,
            payload.bound() == max_len,
    {
        DeferredPayload { func, max_len }
    }
}

impl<F: Fn(&mut [u8]) -> Result<usize, Error>> ToPayload for DeferredPayload<F> {
    /// The function takes every buffer that is long enough, and never claims to
    /// have written more bytes than the buffer has.
    open spec fn ready(&self) -> bool {
        &&& forall|buffer: &mut [u8]|
            self.bound() <= (*buffer)@.len() ==> #[trigger] call_requires(self.writer(), (buffer,))
        &&& forall|buffer: &mut [u8], res: Result<usize, Error>| #[trigger]
            call_ensures(self.writer(), (buffer,), res) ==> (res matches Ok(n) ==> n
                <= (*buffer)@.len())
    }

    open spec fn yields(&self, room: nat, out: Result<Seq<u8>, Error>) -> bool {
        if room < self.bound() {
            out == Err::<Seq<u8>, Error>(Error::BufferSize)
        } else {
            out matches Ok(bytes) ==> bytes.len() <= room
        }
    }

    closed spec fn bound(&self) -> nat {
        self.max_len as nat
    }

    fn serialize(&self, buffer: &mut [u8]) -> (res: Result<usize, Error>)
        ensures
            old(buffer)@.len() >= self.bound() ==> exists|b: &mut [u8], out: Result<usize, Error>|
                {
                    &&& #[trigger] call_ensures(self.writer(), (b,), out)
                    &&& (*b)@ == old(buffer)@
                    &&& (*final(b))@.len() == (*b)@.len() ==> {
                        &&& (*final(b))@ == final(buffer)@
                        &&& out == res
                    }
                },
    {
        let room: usize = buffer.len();
        if room < self.max_len {
            return Err(Error::BufferSize);
        }
        // The function works on a copy, so that the buffer keeps its length
        // whatever it does.
        let mut copy: Vec<u8> = Vec::new();
        let mut i: usize = 0;
        while i < room
            invariant
                i <= room,
                room == buffer@.len(),
                copy@ == buffer@.take(i as int),
            decreases room - i,
        {
            copy.push(buffer[i]);
            i = i + 1;
            assert(copy@ =~= buffer@.take(i as int));
        }
        assert(copy@ =~= buffer@);
        assert(self.writer() == self.func);
        let res: Result<usize, Error> = (self.func)(copy.as_mut_slice());
        if copy.len() != room {
            return Err(Error::BufferSize);
        }
        copy_bytes(copy.as_slice(), buffer)?;
        assert(buffer@ =~= buffer@.take(room as int));
        res
    }

    fn max_size(&self) -> (n: usize) {
        self.max_len
    }
}

/// Bytes are written as they are to the start of a buffer, and the rest of it is
/// as it was. If they do not fit, that is an error and nothing is written.
pub proof fn law_bytes_are_written_as_they_are<'a>(
    payload: &'a [u8],
    buffer: &mut [u8],
    res: Result<usize, Error>,
    size: usize,
)
    requires
        call_ensures(<&'a [u8] as ToPayload>::serialize, (&payload, buffer), res),
        call_ensures(<&'a [u8] as ToPayload>::max_size, (&payload,), size),
    ensures
        size == payload@.len(),
        res is Ok <==> payload@.len() <= old(buffer)@.len(),
        res matches Ok(n) ==> n == payload@.len() && final(buffer)@.take(n as int) == payload@,
        res matches Err(e) ==> e == Error::BufferSize,
        final(buffer)@.len() == old(buffer)@.len(),
        <&'a [u8] as ToPayload>::ready(&payload),
{
}

/// The bytes of an array are written as they are to the start of a buffer. If
/// they do not fit, that is an error.
pub proof fn law_arrays_are_written_as_they_are<'a, const N: usize>(
    payload: [u8; N],
    buffer: &mut [u8],
    res: Result<usize, Error>,
    borrowed: &'a [u8; N],
    other: &mut [u8],
    out: Result<usize, Error>,
    sizes: (usize, usize),
)
    requires
        call_ensures(<[u8; N] as ToPayload>::serialize, (&payload, buffer), res),
        call_ensures(<[u8; N] as ToPayload>::max_size, (&payload,), sizes.0),
        call_ensures(<&'a [u8; N] as ToPayload>::serialize, (&borrowed, other), out),
        call_ensures(<&'a [u8; N] as ToPayload>::max_size, (&borrowed,), sizes.1),
    ensures
        sizes == (N, N),
        res is Ok <==> N <= old(buffer)@.len(),
        res matches Ok(n) ==> n == N && final(buffer)@.take(n as int) == payload@,
        res matches Err(e) ==> e == Error::BufferSize,
        out is Ok <==> N <= old(other)@.len(),
        out matches Ok(n) ==> n == N && final(other)@.take(n as int) == borrowed@,
        out matches Err(e) ==> e == Error::BufferSize,
{
}

/// A payload that is written by a function needs as much room as it was made
/// with, and is not asked for without it.
pub proof fn law_deferred_payload_needs_its_room<F: Fn(&mut [u8]) -> Result<usize, Error>>(
    func: F,
    max_len: usize,
    payload: DeferredPayload<F>,
    size: usize,
    buffer: &mut [u8],
    res: Result<usize, Error>,
)
    requires
        call_ensures(DeferredPayload::<F>::new, (func, max_len), payload),
        call_ensures(<DeferredPayload<F> as ToPayload>::max_size, (&payload,), size),
        call_ensures(<DeferredPayload<F> as ToPayload>::serialize, (&payload, buffer), res),
    ensures
        size == max_len,
        payload.writer() == func,
        old(buffer)@.len() < max_len ==> res == Err::<usize, Error>(Error::BufferSize),
        final(buffer)@.len() == old(buffer)@.len(),
{
}

} // verus!
