use vstd::prelude::*;

verus! {

/// Trait for a buffer provider.
/// The Buffer provider allows abstraction over the memory
/// The memory can be statically allocated, on the heap or on the stack
pub trait BufferProvider: PartialEq {
    /// What the provided buffer holds.
    spec fn bytes(&self) -> Seq<u8>;

    /// Returns a reference to the provided buffer
    /// The buffer **HAS NO GARANTEE** on it's state or initialization
    fn buf(&mut self) -> (buf: &mut [u8])
        ensures
            buf@ == old(self).bytes(),
            final(self).bytes() == final(buf)@,
    ;
}

/// A statically allocated buffer
#[derive(Debug, PartialEq)]
pub struct StaticBufferProvider<const N: usize> {
    buf: [u8; N],
}

impl<const N: usize> StaticBufferProvider<N> {
    /// A buffer with internal allocation
    pub fn new() -> (provider: Self)
        ensures
            provider.bytes() == Seq::new(N as nat, |i: int| 0u8),
    {
        let provider = StaticBufferProvider { buf: [0;N] };
        assert(provider.bytes() =~= Seq::new(N as nat, |i: int| 0u8));
        provider
    }
}

impl<const N: usize> BufferProvider for StaticBufferProvider<N> {
    closed spec fn bytes(&self) -> Seq<u8> {
        self.buf@
    }

    fn buf(&mut self) -> (buf: &mut [u8]) {
        &mut self.buf
    }
}

/// A buffer allocated from userspace
#[derive(Debug, PartialEq)]
pub struct SliceBufferProvider<'a> {
    buf: &'a mut [u8],
}

impl<'a> SliceBufferProvider<'a> {
    /// Creates a new BufferProvided from a userspace memory
    pub fn new(buf: &'a mut [u8]) -> (provider: Self)
        ensures
            provider.bytes() == old(buf)@,
    {
        SliceBufferProvider { buf }
    }
}

impl<'a> BufferProvider for SliceBufferProvider<'a> {
    closed spec fn bytes(&self) -> Seq<u8> {
        self.buf@
    }

    fn buf(&mut self) -> (buf: &mut [u8]) {
        &mut *self.buf
    }
}

} // verus!
