//! A fixed-capacity bit set over entity indices, stored as 1024 words of 64 bits.
use vstd::prelude::*;

verus! {

/// Number of 64-bit words backing a bit set.
pub const WORD_COUNT: usize = 1024;

/// Number of bits a bit set can hold.
pub const BIT_CAPACITY: usize = 65536;

/// Whether bit `b` of `w` is set.
pub open spec fn word_bit(w: u64, b: u64) -> bool {
    (w >> b) & 1u64 == 1u64
}

proof fn lemma_zero_word(b: u64)
    requires
        b < 64,
    ensures
        !word_bit(0u64, b),
{
    assert((0u64 >> b) & 1u64 == 0u64) by (bit_vector);
}

proof fn lemma_set_word(w: u64, b: u64, j: u64)
    requires
        b < 64,
        j < 64,
    ensures
        word_bit(w | (1u64 << b), j) == (j == b || word_bit(w, j)),
{
    assert((((w | (1u64 << b)) >> j) & 1u64 == 1u64) == (j == b || (w >> j) & 1u64 == 1u64))
        by (bit_vector)
        requires
            b < 64,
            j < 64,
    ;
}

proof fn lemma_unset_word(w: u64, b: u64, j: u64)
    requires
        b < 64,
        j < 64,
    ensures
        word_bit(w & !(1u64 << b), j) == (j != b && word_bit(w, j)),
{
    assert((((w & !(1u64 << b)) >> j) & 1u64 == 1u64) == (j != b && (w >> j) & 1u64 == 1u64))
        by (bit_vector)
        requires
            b < 64,
            j < 64,
    ;
}

/// A set of entity indices below [`BIT_CAPACITY`].
pub struct EntitiesBitset {
    words: Vec<u64>,
}

impl EntitiesBitset {
    /// The storage has exactly [`WORD_COUNT`] words.
    pub closed spec fn wf(&self) -> bool {
        self.words@.len() == WORD_COUNT
    }

    /// Whether index `i` is in the set.
    pub closed spec fn has(&self, i: int) -> bool {
        0 <= i < BIT_CAPACITY && word_bit(self.words@[i / 64], (i % 64) as u64)
    }

    /// An empty bit set.
    pub fn new() -> (s: Self)
        ensures
            s.wf(),
            forall|i: int| !s.has(i),
    {
        let mut words: Vec<u64> = Vec::new();
        while words.len() < WORD_COUNT
            invariant
                words@.len() <= WORD_COUNT,
                forall|k: int| 0 <= k < words@.len() ==> words@[k] == 0u64,
            decreases WORD_COUNT - words@.len(),
        {
            words.push(0u64);
        }
        let s = EntitiesBitset { words };
        assert forall|i: int| !s.has(i) by {
            if 0 <= i < BIT_CAPACITY {
                lemma_zero_word((i % 64) as u64);
            }
        }
        s
    }

    /// The number of bits the set can hold.
    pub fn bit_count(&self) -> (n: usize)
        ensures
            n == BIT_CAPACITY,
    {
        BIT_CAPACITY
    }

    /// Whether `i` is in the set.
    pub fn bit(&self, i: usize) -> (b: bool)
        requires
            self.wf(),
            i < BIT_CAPACITY,
        ensures
            b == self.has(i as int),
    {
        let w = self.words[i / 64];
        let shift = (i % 64) as u64;
        (w >> shift) & 1u64 == 1u64
    }

    /// Adds `i` to the set.
    pub fn set_bit(&mut self, i: usize)
        requires
            old(self).wf(),
            i < BIT_CAPACITY,
        ensures
            final(self).wf(),
            forall|j: int| final(self).has(j) == (j == i || old(self).has(j)),
    {
        let idx = i / 64;
        let shift = (i % 64) as u64;
        let w = self.words[idx];
        let nw = w | (1u64 << shift);
        self.words.set(idx, nw);
        assert forall|j: int| self.has(j) == (j == i || old(self).has(j)) by {
            if 0 <= j < BIT_CAPACITY {
                if j / 64 == idx as int {
                    lemma_set_word(w, shift, (j % 64) as u64);
                }
            }
        }
    }

    /// Removes `i` from the set.
    pub fn unset_bit(&mut self, i: usize)
        requires
            old(self).wf(),
            i < BIT_CAPACITY,
        ensures
            final(self).wf(),
            forall|j: int| final(self).has(j) == (j != i && old(self).has(j)),
    {
        let idx = i / 64;
        let shift = (i % 64) as u64;
        let w = self.words[idx];
        let nw = w & !(1u64 << shift);
        self.words.set(idx, nw);
        assert forall|j: int| self.has(j) == (j != i && old(self).has(j)) by {
            if 0 <= j < BIT_CAPACITY {
                if j / 64 == idx as int {
                    lemma_unset_word(w, shift, (j % 64) as u64);
                }
            }
        }
    }
}

/// Clearing a bit undoes setting it: setting a bit that was clear and then
/// clearing it gives back the same set.
pub proof fn law_unset_undoes_set(a: EntitiesBitset, b: EntitiesBitset, c: EntitiesBitset, i: usize)
    requires
        !a.has(i as int),
        forall|j: int| b.has(j) == (j == i || a.has(j)),
        forall|j: int| c.has(j) == (j != i && b.has(j)),
    ensures
        forall|j: int| #[trigger] c.has(j) == a.has(j),
{
}

} // verus!
