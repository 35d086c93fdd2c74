use vstd::prelude::*;

verus! {

/// Whether bit `q` of `w` is set.
pub open spec fn bit_of(w: u32, q: int) -> bool {
    (w >> (q as u32)) & 1 == 1
}

proof fn lemma_word_bits(a: u32, b: u32, p: u32, q: u32)
    by (bit_vector)
    requires
        p < 32,
        q < 32,
    ensures
        ((a | b) >> q) & 1 == 1 <==> ((a >> q) & 1 == 1 || (b >> q) & 1 == 1),
        ((a & b) >> q) & 1 == 1 <==> ((a >> q) & 1 == 1 && (b >> q) & 1 == 1),
        ((a & !b) >> q) & 1 == 1 <==> ((a >> q) & 1 == 1 && !((b >> q) & 1 == 1)),
        ((a ^ b) >> q) & 1 == 1 <==> ((a >> q) & 1 == 1) != ((b >> q) & 1 == 1),
        ((!a) >> q) & 1 == 1 <==> !((a >> q) & 1 == 1),
        ((0u32 >> q) & 1) == 0,
        ((a | (1u32 << p)) >> q) & 1 == 1 <==> ((a >> q) & 1 == 1 || p == q),
        ((a & !(1u32 << p)) >> q) & 1 == 1 <==> ((a >> q) & 1 == 1 && p != q),
        ((a & (1u32 << p)) >> q) & 1 == 1 <==> ((a >> q) & 1 == 1 && p == q),
        (a & (1u32 << p) != 0) <==> (a >> p) & 1 == 1,
{
}

proof fn lemma_bits_of_ops(a: u32, b: u32, q: u32)
    requires
        q < 32,
    ensures
        bit_of(a | b, q as int) == (bit_of(a, q as int) || bit_of(b, q as int)),
        bit_of(a & b, q as int) == (bit_of(a, q as int) && bit_of(b, q as int)),
        bit_of(a & !b, q as int) == (bit_of(a, q as int) && !bit_of(b, q as int)),
        bit_of(a ^ b, q as int) == (bit_of(a, q as int) != bit_of(b, q as int)),
        bit_of(!a, q as int) == !bit_of(a, q as int),
        bit_of(0, q as int) == false,
{
    lemma_word_bits(a, b, 0, q);
}

proof fn lemma_bits_of_single(a: u32, p: u32, q: u32)
    requires
        p < 32,
        q < 32,
    ensures
        bit_of(a | (1u32 << p), q as int) == (bit_of(a, q as int) || p == q),
        bit_of(a & !(1u32 << p), q as int) == (bit_of(a, q as int) && p != q),
        bit_of(a & (1u32 << p), q as int) == (bit_of(a, q as int) && p == q),
        (a & (1u32 << p) != 0) == bit_of(a, p as int),
{
    lemma_word_bits(a, 0, p, q);
}

/// Where bit `bit` lies: word `bit / 32`, position `bit % 32`.
proof fn lemma_bit_position(bit: usize)
    by (bit_vector)
    ensures
        bit >> 5usize == bit / 32,
        bit & 31 == bit % 32,
{
}

/// A word that is not zero has a set bit; shifting out a clear low bit keeps
/// the others.
proof fn lemma_shift_bits(w: u32, h: u32, qq: u32)
    by (bit_vector)
    requires
        h == w >> 1u32,
    ensures
        w & 1 == 1 ==> (w >> 0u32) & 1 == 1,
        w != 0 && w & 1 != 1 ==> h != 0 && h < w,
        qq < 32 && (h >> qq) & 1 == 1 ==> qq < 31 && (w >> (qq + 1)) & 1 == 1,
{
}

proof fn lemma_nonzero_has_bit(w: u32)
    requires
        w != 0,
    ensures
        exists|q: int| 0 <= q < 32 && bit_of(w, q),
    decreases w,
{
    let h = w >> 1u32;
    lemma_shift_bits(w, h, 0);
    if w & 1 == 1 {
        assert(bit_of(w, 0));
    } else {
        lemma_nonzero_has_bit(h);
        let q = choose|q: int| 0 <= q < 32 && bit_of(h, q);
        let qq = q as u32;
        lemma_shift_bits(w, h, qq);
        assert(bit_of(w, (qq + 1) as int));
    }
}

/// A set of `32 * SIZE` bits held in words.
#[derive(Clone, Copy)]
pub struct Bitset<const SIZE: usize>(pub [u32; SIZE]);

impl<const SIZE: usize> Bitset<SIZE> {
    /// Whether bit `b` is in the set.
    pub open spec fn has(&self, b: int) -> bool {
        0 <= b < 32 * SIZE && bit_of(self.0@[b / 32], b % 32)
    }

    /// The bits in the set.
    pub open spec fn bits(&self) -> Set<int> {
        Set::new(|b: int| self.has(b))
    }

    /// The empty set.
    pub fn new() -> (r: Self)
        ensures
            r.bits() == Set::<int>::empty(),
            forall|i: int| 0 <= i < SIZE ==> r.0@[i] == 0,
    {
        let r = Bitset([0u32; SIZE]);
        proof {
            assert forall|b: int| !r.has(b) by {
                if 0 <= b < 32 * SIZE {
                    lemma_bits_of_ops(0, 0, (b % 32) as u32);
                }
            }
            assert(r.bits() =~= Set::<int>::empty());
        }
        r
    }

    /// Adds bit `bit`.
    pub fn insert(&mut self, bit: usize)
        requires
            bit < 32 * SIZE,
        ensures
            final(self).bits() == old(self).bits().insert(bit as int),
    {
        let array_index = bit >> 5usize;
        let pos_index = bit & 31;
        proof {
            lemma_bit_position(bit);
        }
        let p = pos_index as u32;
        let w = self.0[array_index];
        self.0[array_index] = w | (1u32 << p);
        proof {
            assert forall|b: int| final(self).has(b) == (old(self).has(b) || b == bit) by {
                if 0 <= b < 32 * SIZE {
                    lemma_bits_of_single(old(self).0@[b / 32], p, (b % 32) as u32);
                }
            }
            assert(final(self).bits() =~= old(self).bits().insert(bit as int));
        }
    }

    /// Removes bit `bit`.
    pub fn remove(&mut self, bit: usize)
        requires
            bit < 32 * SIZE,
        ensures
            final(self).bits() == old(self).bits().remove(bit as int),
    {
        let array_index = bit >> 5usize;
        let pos_index = bit & 31;
        proof {
            lemma_bit_position(bit);
        }
        let p = pos_index as u32;
        let w = self.0[array_index];
        self.0[array_index] = w & !(1u32 << p);
        proof {
            assert forall|b: int| final(self).has(b) == (old(self).has(b) && b != bit) by {
                if 0 <= b < 32 * SIZE {
                    lemma_bits_of_single(old(self).0@[b / 32], p, (b % 32) as u32);
                }
            }
            assert(final(self).bits() =~= old(self).bits().remove(bit as int));
        }
    }

    /// Whether bit `bit` is in the set.
    pub fn contains(&self, bit: usize) -> (r: bool)
        requires
            bit < 32 * SIZE,
        ensures
            r == self.bits().contains(bit as int),
    {
        let array_index = bit >> 5usize;
        let pos_index = bit & 31;
        proof {
            lemma_bit_position(bit);
        }
        let p = pos_index as u32;
        proof {
            lemma_bits_of_single(self.0@[array_index as int], p, p);
        }
        self.0[array_index] & (1u32 << p) != 0
    }

    /// Whether no bit is in the set.
    pub fn is_empty(&self) -> (r: bool)
        ensures
            r == (self.bits() == Set::<int>::empty()),
    {
        let mut i: usize = 0;
        let mut sum: u32 = 0;
        proof {
            assert forall|q: int| 0 <= q < 32 implies !bit_of(0, q) by {
                lemma_bits_of_ops(0, 0, q as u32);
            }
        }
        while i < SIZE
            invariant
                i <= SIZE,
                forall|q: int| 0 <= q < 32 ==> (bit_of(sum, q) <==> exists|k: int| 0 <= k < i && #[trigger] bit_of(self.0@[k], q)),
            decreases SIZE - i,
        {
            let ghost old_sum = sum;
            sum = sum | self.0[i];
            proof {
                assert forall|q: int| 0 <= q < 32 implies (bit_of(sum, q) <==> exists|k: int| 0 <= k < i + 1 && #[trigger] bit_of(self.0@[k], q)) by {
                    lemma_bits_of_ops(old_sum, self.0@[i as int], q as u32);
                    if bit_of(self.0@[i as int], q) {
                        assert(0 <= i < i + 1 && bit_of(self.0@[i as int], q));
                    }
                }
            }
            i = i + 1;
        }
        proof {
            if sum == 0 {
                assert forall|b: int| !self.has(b) by {
                    if 0 <= b < 32 * SIZE {
                        let q = b % 32;
                        let k = b / 32;
                        lemma_bits_of_ops(0, 0, q as u32);
                        if bit_of(self.0@[k], q) {
                            assert(exists|kk: int| 0 <= kk < SIZE && #[trigger] bit_of(self.0@[kk], q));
                        }
                    }
                }
                assert(self.bits() =~= Set::<int>::empty());
            } else {
                lemma_nonzero_has_bit(sum);
                let q = choose|q: int| 0 <= q < 32 && bit_of(sum, q);
                let k = choose|k: int| 0 <= k < SIZE && #[trigger] bit_of(self.0@[k], q);
                let b = 32 * k + q;
                assert(b / 32 == k && b % 32 == q);
                assert(self.has(b));
                assert(self.bits().contains(b));
            }
        }
        sum == 0
    }

    /// Removes every bit.
    pub fn clear(&mut self)
        ensures
            final(self).bits() == Set::<int>::empty(),
            forall|i: int| 0 <= i < SIZE ==> final(self).0@[i] == 0,
    {
        *self = Bitset::new();
    }

    /// Adds every bit of `rhs`.
    pub fn union_with(&mut self, rhs: Bitset<SIZE>)
        ensures
            final(self).bits() == old(self).bits().union(rhs.bits()),
    {
        let mut i: usize = 0;
        while i < SIZE
            invariant
                i <= SIZE,
                forall|k: int| 0 <= k < i ==> #[trigger] self.0@[k] == old(self).0@[k] | rhs.0@[k],
                forall|k: int| i <= k < SIZE ==> #[trigger] self.0@[k] == old(self).0@[k],
            decreases SIZE - i,
        {
            let w = self.0[i] | rhs.0[i];
            self.0[i] = w;
            i = i + 1;
        }
        proof {
            assert forall|b: int| #[trigger] final(self).has(b) == (old(self).bits().union(rhs.bits())).contains(b) by {
                if 0 <= b < 32 * SIZE {
                    lemma_bits_of_ops(old(self).0@[b / 32], rhs.0@[b / 32], (b % 32) as u32);
                }
            }
            assert(final(self).bits() =~= old(self).bits().union(rhs.bits()));
        }
    }

    /// The bits of either set.
    pub fn union(self, rhs: Bitset<SIZE>) -> (r: Bitset<SIZE>)
        ensures
            r.bits() == self.bits().union(rhs.bits()),
    {
        let mut r = self;
        r.union_with(rhs);
        r
    }

    /// Removes every bit of `rhs`.
    pub fn difference_with(&mut self, rhs: Bitset<SIZE>)
        ensures
            final(self).bits() == old(self).bits().difference(rhs.bits()),
    {
        let mut i: usize = 0;
        while i < SIZE
            invariant
                i <= SIZE,
                forall|k: int| 0 <= k < i ==> #[trigger] self.0@[k] == old(self).0@[k] & !rhs.0@[k],
                forall|k: int| i <= k < SIZE ==> #[trigger] self.0@[k] == old(self).0@[k],
            decreases SIZE - i,
        {
            let w = self.0[i] & !rhs.0[i];
            self.0[i] = w;
            i = i + 1;
        }
        proof {
            assert forall|b: int| #[trigger] final(self).has(b) == (old(self).bits().difference(rhs.bits())).contains(b) by {
                if 0 <= b < 32 * SIZE {
                    lemma_bits_of_ops(old(self).0@[b / 32], rhs.0@[b / 32], (b % 32) as u32);
                }
            }
            assert(final(self).bits() =~= old(self).bits().difference(rhs.bits()));
        }
    }

    /// The bits of `self` that are not in `rhs`.
    pub fn difference(self, rhs: Bitset<SIZE>) -> (r: Bitset<SIZE>)
        ensures
            r.bits() == self.bits().difference(rhs.bits()),
    {
        let mut r = self;
        r.difference_with(rhs);
        r
    }

    /// Keeps only the bits that are also in `rhs`.
    pub fn intersection_with(&mut self, rhs: Bitset<SIZE>)
        ensures
            final(self).bits() == old(self).bits().intersect(rhs.bits()),
    {
        let mut i: usize = 0;
        while i < SIZE
            invariant
                i <= SIZE,
                forall|k: int| 0 <= k < i ==> #[trigger] self.0@[k] == old(self).0@[k] & rhs.0@[k],
                forall|k: int| i <= k < SIZE ==> #[trigger] self.0@[k] == old(self).0@[k],
            decreases SIZE - i,
        {
            let w = self.0[i] & rhs.0[i];
            self.0[i] = w;
            i = i + 1;
        }
        proof {
            assert forall|b: int| #[trigger] final(self).has(b) == (old(self).bits().intersect(rhs.bits())).contains(b) by {
                if 0 <= b < 32 * SIZE {
                    lemma_bits_of_ops(old(self).0@[b / 32], rhs.0@[b / 32], (b % 32) as u32);
                }
            }
            assert(final(self).bits() =~= old(self).bits().intersect(rhs.bits()));
        }
    }

    /// The bits of both sets.
    pub fn intersection(self, rhs: Bitset<SIZE>) -> (r: Bitset<SIZE>)
        ensures
            r.bits() == self.bits().intersect(rhs.bits()),
    {
        let mut r = self;
        r.intersection_with(rhs);
        r
    }

    /// Flips every bit of `rhs`.
    pub fn symmetric_difference_with(&mut self, rhs: Bitset<SIZE>)
        ensures
            final(self).bits() == old(self).bits().union(rhs.bits()).difference(old(self).bits().intersect(rhs.bits())),
    {
        let mut i: usize = 0;
        while i < SIZE
            invariant
                i <= SIZE,
                forall|k: int| 0 <= k < i ==> #[trigger] self.0@[k] == old(self).0@[k] ^ rhs.0@[k],
                forall|k: int| i <= k < SIZE ==> #[trigger] self.0@[k] == old(self).0@[k],
            decreases SIZE - i,
        {
            let w = self.0[i] ^ rhs.0[i];
            self.0[i] = w;
            i = i + 1;
        }
        proof {
            assert forall|b: int| #[trigger] final(self).has(b) == (old(self).bits().union(rhs.bits()).difference(old(self).bits().intersect(rhs.bits()))).contains(b) by {
                if 0 <= b < 32 * SIZE {
                    lemma_bits_of_ops(old(self).0@[b / 32], rhs.0@[b / 32], (b % 32) as u32);
                }
            }
            assert(final(self).bits() =~= old(self).bits().union(rhs.bits()).difference(old(self).bits().intersect(rhs.bits())));
        }
    }

    /// The bits of exactly one of the sets.
    pub fn symmetric_difference(self, rhs: Bitset<SIZE>) -> (r: Bitset<SIZE>)
        ensures
            r.bits() == self.bits().union(rhs.bits()).difference(self.bits().intersect(rhs.bits())),
    {
        let mut r = self;
        r.symmetric_difference_with(rhs);
        r
    }

    /// The bits of the range that are not in the set.
    pub fn complement(self) -> (r: Bitset<SIZE>)
        ensures
            r.bits() == Set::new(|b: int| 0 <= b < 32 * SIZE).difference(self.bits()),
    {
        let mut r = self;
        let mut i: usize = 0;
        while i < SIZE
            invariant
                i <= SIZE,
                forall|k: int| 0 <= k < i ==> #[trigger] r.0@[k] == !self.0@[k],
                forall|k: int| i <= k < SIZE ==> #[trigger] r.0@[k] == self.0@[k],
            decreases SIZE - i,
        {
            let w = !r.0[i];
            r.0[i] = w;
            i = i + 1;
        }
        proof {
            assert forall|b: int| #[trigger] r.has(b) == (0 <= b < 32 * SIZE && !self.has(b)) by {
                if 0 <= b < 32 * SIZE {
                    lemma_bits_of_ops(self.0@[b / 32], 0, (b % 32) as u32);
                }
            }
            assert(r.bits() =~= Set::new(|b: int| 0 <= b < 32 * SIZE).difference(self.bits()));
        }
        r
    }

    /// The set with bit `bit` added.
    pub fn with_bit(self, bit: usize) -> (r: Bitset<SIZE>)
        requires
            bit < 32 * SIZE,
        ensures
            r.bits() == self.bits().insert(bit as int),
    {
        let mut r = self;
        r.insert(bit);
        r
    }

    /// The set with bit `bit` removed.
    pub fn without_bit(self, bit: usize) -> (r: Bitset<SIZE>)
        requires
            bit < 32 * SIZE,
        ensures
            r.bits() == self.bits().remove(bit as int),
    {
        let mut r = self;
        r.remove(bit);
        r
    }
}

impl<const SIZE: usize> Default for Bitset<SIZE> {
    fn default() -> (r: Self)
        ensures
            r.bits() == Set::<int>::empty(),
    {
        Bitset::new()
    }
}

} // verus!
