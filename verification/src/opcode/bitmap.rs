//! One bit per mapped-image byte.

use vstd::prelude::*;

verus! {

/// Bits in one bitmap word.
pub const WORD_BITS: usize = 64;

/// Stores one bit per mapped-image byte without allocating a byte for every position.
pub struct ProcessDecodeBitmap {
    pub words: Vec<u64>,
    pub bit_length: usize,
}

/// Whether bit `k` of `word` is set.
pub open spec fn bit_set(word: u64, k: int) -> bool {
    word & (1u64 << (k as u64)) != 0
}

impl View for ProcessDecodeBitmap {
    type V = Set<int>;

    /// The marked positions.
    open spec fn view(&self) -> Set<int> {
        Set::new(
            |i: int|
                self.represents(i) && bit_set(
                    self.words@[i / WORD_BITS as int],
                    i % WORD_BITS as int,
                ),
        )
    }
}

/// Setting one bit of a word leaves every other bit as it was.
proof fn lemma_set_bit(word: u64, k: int, j: int)
    requires
        0 <= k < 64,
        0 <= j < 64,
    ensures
        bit_set(word | (1u64 << (k as u64)), j) == (j == k || bit_set(word, j)),
{
    let (a, b) = (k as u64, j as u64);
    assert((word | (1u64 << a)) & (1u64 << b) != 0 <==> (a == b || word & (1u64 << b) != 0))
        by (bit_vector)
        requires
            a < 64,
            b < 64,
    ;
}

/// The union of two words has the bits of both.
proof fn lemma_union_bits(left: u64, right: u64, j: int)
    requires
        0 <= j < 64,
    ensures
        bit_set(left | right, j) == (bit_set(left, j) || bit_set(right, j)),
{
    let b = j as u64;
    assert((left | right) & (1u64 << b) != 0 <==> (left & (1u64 << b) != 0 || right & (1u64 << b)
        != 0)) by (bit_vector)
        requires
            b < 64,
    ;
}

/// No bit of a zero word is set.
proof fn lemma_zero_word(j: int)
    requires
        0 <= j < 64,
    ensures
        !bit_set(0, j),
{
    let b = j as u64;
    assert(0u64 & (1u64 << b) == 0) by (bit_vector);
}

impl ProcessDecodeBitmap {
    /// Whether position `i` is in range and allocated.
    pub open spec fn represents(&self, i: int) -> bool {
        0 <= i < self.bit_length && i / (WORD_BITS as int) < self.words@.len()
    }

    /// Every position in range is allocated.
    pub open spec fn complete(&self) -> bool {
        forall|i: int| 0 <= i < self.bit_length ==> #[trigger] self.represents(i)
    }

    /// A bitmap of `bit_length` positions that are all allocated and unmarked.
    pub open spec fn fresh(&self, bit_length: nat) -> bool {
        &&& self@ == Set::<int>::empty()
        &&& self.bit_length == bit_length
        &&& self.complete()
    }

    /// A bitmap of the same shape represents the same positions.
    proof fn lemma_same_shape(&self, other: &ProcessDecodeBitmap)
        requires
            self.bit_length == other.bit_length,
            self.words@.len() == other.words@.len(),
            self.complete(),
        ensures
            other.complete(),
    {
        assert forall|i: int| 0 <= i < other.bit_length implies #[trigger] other.represents(i) by {
            assert(self.represents(i));
        }
    }

    /// Makes a zeroed bitmap of `bit_length` positions out of an empty word buffer.
    pub fn zeroed(buffer: Vec<u64>, bit_length: usize) -> (r: ProcessDecodeBitmap)
        requires
            buffer@.len() == 0,
            bit_length + WORD_BITS - 1 <= usize::MAX,
        ensures
            r.fresh(bit_length as nat),
            r.words@.len() == (bit_length + WORD_BITS - 1) / WORD_BITS as int,
    {
        let mut words = buffer;
        words.resize((bit_length + (WORD_BITS - 1)) / WORD_BITS, 0);
        let bitmap = ProcessDecodeBitmap { words, bit_length };
        proof {
            assert forall|i: int| #[trigger] bitmap@.contains(i) implies false by {
                lemma_zero_word(i % 64);
            }
            assert(bitmap@ =~= Set::<int>::empty());
        }
        bitmap
    }

    /// Allocates a zeroed bitmap. It fails when the word count overflows or its reservation is
    /// refused; a bitmap without positions needs none.
    pub fn new(bit_length: usize) -> (r: Option<ProcessDecodeBitmap>)
        ensures
            bit_length + WORD_BITS - 1 > usize::MAX ==> r is None,
            bit_length == 0 ==> r is Some,
            r is Some ==> {
                &&& r->0.fresh(bit_length as nat)
                &&& r->0.words@.len() == (bit_length + WORD_BITS - 1) / WORD_BITS as int
            },
    {
        let word_count: usize = match bit_length.checked_add(WORD_BITS - 1) {
            Some(value) => value / WORD_BITS,
            None => return None,
        };
        let mut words: Vec<u64> = Vec::new();
        if word_count > 0 && words.try_reserve(word_count).is_err() {
            return None;
        }
        Some(ProcessDecodeBitmap::zeroed(words, bit_length))
    }

    /// Creates an unallocated bitmap that reports every position as unset.
    pub fn empty(bit_length: usize) -> (r: ProcessDecodeBitmap)
        ensures
            r@ == Set::<int>::empty(),
            r.bit_length == bit_length,
            r.words@.len() == 0,
    {
        let bitmap = ProcessDecodeBitmap { words: Vec::new(), bit_length };
        assert(bitmap@ =~= Set::<int>::empty());
        bitmap
    }

    /// Reports whether one image-relative position was marked.
    pub fn contains(&self, index: usize) -> (r: bool)
        ensures
            r == self@.contains(index as int),
    {
        if index >= self.bit_length {
            return false;
        }
        let word_index: usize = index / WORD_BITS;
        if word_index >= self.words.len() {
            return false;
        }
        let mask: u64 = 1u64 << ((index % WORD_BITS) as u64);
        self.words[word_index] & mask != 0
    }

    /// Marks one image-relative position, unless it is out of range or unallocated.
    pub fn insert(&mut self, index: usize)
        ensures
            final(self).bit_length == old(self).bit_length,
            final(self).words@.len() == old(self).words@.len(),
            old(self).complete() ==> final(self).complete(),
            final(self)@ == (if old(self).represents(index as int) {
                old(self)@.insert(index as int)
            } else {
                old(self)@
            }),
    {
        if index >= self.bit_length {
            return;
        }
        let word_index: usize = index / WORD_BITS;
        if word_index >= self.words.len() {
            return;
        }
        let ghost before = *self;
        let word: u64 = self.words[word_index];
        let shift: u64 = (index % WORD_BITS) as u64;
        self.words[word_index] = word | (1u64 << shift);
        proof {
            assert forall|i: int| #[trigger] self@.contains(i) == before@.insert(
                index as int,
            ).contains(i) by {
                if self.represents(i) && i / 64 == word_index as int {
                    lemma_set_bit(word, index as int % 64, i % 64);
                    assert(i % 64 == index % 64 ==> i == index) by {
                        assert(i == 64 * (i / 64) + i % 64);
                        assert(index == 64 * (index / 64) + index % 64);
                    }
                }
            }
            assert(self@ =~= before@.insert(index as int));
            if before.complete() {
                before.lemma_same_shape(self);
            }
        }
    }

    /// Marks every represented position in one half-open interval.
    pub fn insert_range(&mut self, start: usize, end: usize)
        ensures
            final(self).bit_length == old(self).bit_length,
            final(self).words@.len() == old(self).words@.len(),
            old(self).complete() ==> final(self).complete(),
            final(self)@ == old(self)@.union(
                Set::new(|i: int| start <= i < end && old(self).represents(i)),
            ),
    {
        let last: usize = if end <= self.bit_length {
            end
        } else {
            self.bit_length
        };
        let mut index: usize = start;
        let ghost before = *self;
        assert(self@ =~= before@.union(
            Set::new(|i: int| start <= i < index && before.represents(i)),
        ));
        while index < last
            invariant
                start <= index,
                last <= self.bit_length,
                last <= end,
                before == *old(self),
                self.bit_length == before.bit_length,
                self.words@.len() == before.words@.len(),
                self@ == before@.union(
                    Set::new(|i: int| start <= i < index && before.represents(i)),
                ),
                index <= last || index == start,
            decreases last - index,
        {
            self.insert(index);
            index += 1;
            assert(self@ =~= before@.union(
                Set::new(|i: int| start <= i < index && before.represents(i)),
            ));
        }
        assert(self@ =~= before@.union(
            Set::new(|i: int| start <= i < end && before.represents(i)),
        ));
        proof {
            if before.complete() {
                before.lemma_same_shape(self);
            }
        }
    }

    /// Merges the marked positions of an equally bounded bitmap, over the words that both have.
    pub fn union_with(&mut self, other: &ProcessDecodeBitmap)
        requires
            old(self).bit_length == other.bit_length,
        ensures
            final(self).bit_length == old(self).bit_length,
            final(self).words@.len() == old(self).words@.len(),
            old(self).complete() ==> final(self).complete(),
            final(self)@ == old(self)@.union(
                other@.intersect(Set::new(|i: int| old(self).represents(i))),
            ),
    {
        let ghost before = *self;
        let mut index: usize = 0;
        while index < self.words.len() && index < other.words.len()
            invariant
                before == *old(self),
                self.bit_length == before.bit_length,
                self.words@.len() == before.words@.len(),
                forall|w: int|
                    0 <= w < self.words@.len() ==> #[trigger] self.words@[w] == (if w < index {
                        before.words@[w] | other.words@[w]
                    } else {
                        before.words@[w]
                    }),
                index <= other.words@.len(),
                index <= self.words@.len(),
            decreases self.words.len() - index,
        {
            let word: u64 = self.words[index];
            self.words[index] = word | other.words[index];
            index += 1;
        }
        proof {
            let merged = before@.union(other@.intersect(Set::new(|i: int| before.represents(i))));
            assert forall|i: int| #[trigger] self@.contains(i) == merged.contains(i) by {
                if self.represents(i) && i / 64 < index {
                    lemma_union_bits(before.words@[i / 64], other.words@[i / 64], i % 64);
                }
            }
            assert(self@ =~= merged);
            if before.complete() {
                before.lemma_same_shape(self);
            }
        }
    }
}

/// Confirms that a backing-file instruction start is also a current-process boundary.
pub fn is_dual_decode_hit_boundary(
    current_instruction_starts: &ProcessDecodeBitmap,
    rva: usize,
) -> (r: bool)
    ensures
        r == current_instruction_starts@.contains(rva as int),
{
    current_instruction_starts.contains(rva)
}

} // verus!
