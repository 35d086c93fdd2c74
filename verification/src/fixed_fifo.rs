use vstd::prelude::*;

verus! {

/// A queue of at most `N` elements kept in a ring of `N` slots. The slot that the
/// next pushed element lands in, and the slot of the front element, are exposed
/// so that data kept beside the queue can be indexed by them.
pub struct FixedFifo<T, const N: usize> {
    buf: Vec<T>,
    start: usize,
    len: usize,
}

impl<T: Copy, const N: usize> FixedFifo<T, N> {
    /// The ring is laid out consistently.
    pub closed spec fn wf(&self) -> bool {
        &&& N > 0
        &&& N <= 0x8000_0000
        &&& self.buf@.len() == N
        &&& self.start < N
        &&& self.len <= N
    }

    /// The queued elements, front first.
    pub closed spec fn view(&self) -> Seq<T> {
        Seq::new(self.len as nat, |i: int| self.buf@[(self.start + i) % (N as int)])
    }

    /// Slot of the front element.
    pub closed spec fn front_slot(&self) -> int {
        self.start as int
    }

    /// Slot that the next pushed element takes.
    pub open spec fn end_slot(&self) -> int {
        (self.front_slot() + self.view().len()) % (N as int)
    }

    /// The front slot is a slot of the ring and the queue fits in it.
    pub proof fn lemma_wf(&self)
        requires
            self.wf(),
        ensures
            0 <= self.front_slot() < N,
            self.view().len() <= N,
            N <= 0x8000_0000,
    {
    }

    pub fn new(fill: T) -> (r: Self)
        requires
            0 < N <= 0x8000_0000,
        ensures
            r.wf(),
            r.view() == Seq::<T>::empty(),
            r.front_slot() == 0,
    {
        let buf = vec![fill; N];
        FixedFifo { buf, start: 0, len: 0 }
    }

    pub fn len(&self) -> (r: usize)
        requires
            self.wf(),
        ensures
            r == self.view().len(),
    {
        self.len
    }

    pub fn is_empty(&self) -> (r: bool)
        requires
            self.wf(),
        ensures
            r == (self.view().len() == 0),
    {
        self.len == 0
    }

    pub fn pos_front(&self) -> (r: usize)
        requires
            self.wf(),
        ensures
            r == self.front_slot(),
            r < N,
    {
        self.start
    }

    pub fn pos_end(&self) -> (r: usize)
        requires
            self.wf(),
        ensures
            r == self.end_slot(),
            r < N,
    {
        let e = self.start + self.len;
        proof {
            lemma_mod_small(e as int, N as int);
        }
        if e >= N {
            e - N
        } else {
            e
        }
    }

    pub fn front(&self) -> (r: T)
        requires
            self.wf(),
            self.view().len() > 0,
        ensures
            r == self.view()[0],
    {
        proof {
            lemma_mod_small(self.start as int, N as int);
        }
        self.buf[self.start]
    }

    pub fn push_back(&mut self, value: T)
        requires
            old(self).wf(),
            old(self).view().len() < N,
        ensures
            final(self).wf(),
            final(self).view() == old(self).view().push(value),
            final(self).front_slot() == old(self).front_slot(),
    {
        let e = self.pos_end();
        self.buf.set(e, value);
        self.len = self.len + 1;
        proof {
            assert forall|i: int| 0 <= i < self.len implies #[trigger] self.view()[i] == old(self).view().push(value)[i] by {
                if i < self.len - 1 {
                    lemma_ring_distinct(self.start as int, i, self.len - 1, N as int);
                }
            }
            assert(self.view() =~= old(self).view().push(value));
        }
    }

    pub fn pop_front(&mut self)
        requires
            old(self).wf(),
            old(self).view().len() > 0,
        ensures
            final(self).wf(),
            final(self).view() == old(self).view().drop_first(),
            final(self).front_slot() == (old(self).front_slot() + 1) % (N as int),
    {
        self.start = if self.start + 1 == N {
            0
        } else {
            self.start + 1
        };
        self.len = self.len - 1;
        proof {
            lemma_mod_small(old(self).start + 1, N as int);
            assert forall|i: int| 0 <= i < self.len implies #[trigger] self.view()[i] == old(self).view().drop_first()[i] by {
                lemma_ring_shift(old(self).start as int, i, N as int);
            }
            assert(self.view() =~= old(self).view().drop_first());
        }
    }

    pub fn clear(&mut self)
        requires
            old(self).wf(),
        ensures
            final(self).wf(),
            final(self).view() == Seq::<T>::empty(),
    {
        self.start = 0;
        self.len = 0;
        assert(self.view() =~= Seq::<T>::empty());
    }
}

/// Reducing a value below twice the modulus.
proof fn lemma_mod_small(x: int, n: int)
    requires
        0 <= x < 2 * n,
    ensures
        x < n ==> x % n == x,
        x >= n ==> x % n == x - n,
{
    if x < n {
        assert(x % n == x) by (nonlinear_arith)
            requires
                0 <= x < n,
        ;
    } else {
        assert(x % n == x - n) by (nonlinear_arith)
            requires
                n <= x < 2 * n,
        ;
    }
}

/// Slots of distinct queue positions differ.
proof fn lemma_ring_distinct(start: int, i: int, len: int, n: int)
    requires
        0 <= start < n,
        0 <= i < len,
        len < n,
    ensures
        (start + i) % n != (start + len) % n,
{
    if start + len < n {
        assert((start + i) % n == start + i) by (nonlinear_arith)
            requires
                0 <= start + i < n,
        ;
        assert((start + len) % n == start + len) by (nonlinear_arith)
            requires
                0 <= start + len < n,
        ;
    } else {
        assert((start + len) % n == start + len - n) by (nonlinear_arith)
            requires
                n <= start + len < 2 * n,
        ;
        if start + i < n {
            assert((start + i) % n == start + i) by (nonlinear_arith)
                requires
                    0 <= start + i < n,
            ;
        } else {
            assert((start + i) % n == start + i - n) by (nonlinear_arith)
                requires
                    n <= start + i < 2 * n,
            ;
        }
    }
}

/// Moving the start one slot on moves every position one slot on.
proof fn lemma_ring_shift(start: int, i: int, n: int)
    requires
        0 <= start < n,
        0 <= i < n,
    ensures
        ((if start + 1 == n { 0 } else { start + 1 }) + i) % n == (start + (i + 1)) % n,
{
    if start + 1 == n {
        assert((start + (i + 1)) % n == i % n) by (nonlinear_arith)
            requires
                start + 1 == n,
                0 <= i,
        ;
    }
}

} // verus!
