//! The buffers of the transports.
use vstd::prelude::*;

verus! {

/// A memory pool for managing TLS buffers: which of them are in use.
pub struct Pool<const N: usize> {
    used: [bool; N],
}

impl<const N: usize> View for Pool<N> {
    type V = Seq<bool>;

    closed spec fn view(&self) -> Seq<bool> {
        self.used@
    }
}

impl<const N: usize> Pool<N> {
    /// Creates a new `Pool`.
    pub fn new() -> (pool: Self)
        ensures
            pool@ == Seq::new(N as nat, |i: int| false),
    {
        let pool = Pool { used: [false;N] };
        assert(pool@ =~= Seq::new(N as nat, |i: int| false));
        pool
    }

    /// Allocates a buffer from the pool.
    ///
    /// # Returns
    ///
    /// The number of the allocated buffer or `None` if the pool is full.
    pub fn allocate(&mut self) -> (res: Option<usize>)
        ensures
            match res {
                Some(n) => {
                    &&& n < old(self)@.len()
                    &&& !old(self)@[n as int]
                    &&& forall|i: int| 0 <= i < n ==> #[trigger] old(self)@[i]
                    &&& final(self)@ == old(self)@.update(n as int, true)
                },
                None => {
                    &&& forall|i: int| 0 <= i < old(self)@.len() ==> #[trigger] old(self)@[i]
                    &&& final(self)@ == old(self)@
                },
            },
    {
        let mut n: usize = 0;
        while n < N
            invariant
                n <= N,
                self.used@.len() == N,
                self.used@ == old(self).used@,
                forall|i: int| 0 <= i < n ==> #[trigger] self.used@[i],
            decreases N - n,
        {
            if !self.used[n] {
                self.used[n] = true;
                return Some(n);
            }
            n = n + 1;
        }
        None
    }

    /// Frees a previously allocated buffer.
    pub fn free(&mut self, n: usize)
        requires
            n < old(self)@.len(),
        ensures
            final(self)@ == old(self)@.update(n as int, false),
    {
        assert(self@.len() == N);
        self.used[n] = false;
    }
}

/// State for managing TLS buffers.
pub struct TlsState<const RX: usize, const TX: usize> {
    pub pool: Pool<1>,
    pub rx: [u8; RX],
    pub tx: [u8; TX],
}

impl<const RX: usize, const TX: usize> TlsState<RX, TX> {
    /// Creates a new `TlsState`.
    pub fn new() -> (state: Self)
        ensures
            state.pool@ == seq![false],
            state.rx@ == Seq::new(RX as nat, |i: int| 0u8),
            state.tx@ == Seq::new(TX as nat, |i: int| 0u8),
    {
        let state = TlsState { pool: Pool::new(), rx: [0;RX], tx: [0;TX] };
        assert(state.pool@ =~= seq![false]);
        assert(state.rx@ =~= Seq::new(RX as nat, |i: int| 0u8));
        assert(state.tx@ =~= Seq::new(TX as nat, |i: int| 0u8));
        state
    }
}

/// A buffer that has been freed can be allocated again, and one that is in use
/// cannot.
pub proof fn law_freed_buffer_is_free(used: Seq<bool>, n: int)
    requires
        0 <= n < used.len(),
        !used[n],
    ensures
        used.update(n, true)[n],
        used.update(n, true).update(n, false) == used,
{
    assert(used.update(n, true).update(n, false) =~= used);
}

/// The buffer that is handed out was free and is in use from then on, and no
/// other one changes. There is none if and only if all of them are in use.
pub proof fn law_allocate<const N: usize>(pool: &mut Pool<N>, res: Option<usize>, other: int)
    requires
        call_ensures(Pool::<N>::allocate, (pool,), res),
        0 <= other < old(pool)@.len(),
    ensures
        final(pool)@.len() == old(pool)@.len(),
        res matches Some(n) ==> {
            &&& n < old(pool)@.len()
            &&& !old(pool)@[n as int]
            &&& final(pool)@[n as int]
            &&& other != n ==> final(pool)@[other] == old(pool)@[other]
            &&& other < n ==> old(pool)@[other]
        },
        res is None ==> old(pool)@[other] && final(pool)@ == old(pool)@,
        !old(pool)@[other] ==> res is Some,
{
}

/// A buffer that has been freed is free, and no other one changes.
pub proof fn law_free<const N: usize>(pool: &mut Pool<N>, n: usize, other: int)
    requires
        n < old(pool)@.len(),
        0 <= other < old(pool)@.len(),
        call_ensures(Pool::<N>::free, (pool, n), ()),
    ensures
        final(pool)@.len() == old(pool)@.len(),
        !final(pool)@[n as int],
        other != n ==> final(pool)@[other] == old(pool)@[other],
{
}

/// All buffers of a new pool are free.
pub proof fn law_new_pool<const N: usize>(pool: Pool<N>, n: int)
    requires
        call_ensures(Pool::<N>::new, (), pool),
    ensures
        pool@.len() == N,
        0 <= n < N ==> !pool@[n],
{
}

} // verus!
