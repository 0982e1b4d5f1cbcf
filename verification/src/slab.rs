//! Connection slab allocator.
//!
//! A fixed-capacity array of slots plus a packed bitset of 64-bit words where
//! a set bit means "free". Allocation scans the bitset word-wise and claims
//! the lowest free slot; freeing sets the bit back. After initialisation any
//! bit at or beyond the capacity stays permanently zero.

use vstd::prelude::*;

verus! {

broadcast use vstd::std_specs::bits::axiom_u64_trailing_zeros;

/// Handle to a slot in the slab. Valid only while the slot is occupied.
#[derive(Debug, Clone, Copy, PartialEq, Eq, Hash, Structural)]
pub struct SlabHandle(pub usize);

impl SlabHandle {
    /// The raw slot index.
    pub fn index(&self) -> (r: usize)
        ensures
            r == self.0,
    {
        self.0
    }
}

/// How many slots of `s` are occupied.
pub open spec fn num_occupied<T>(s: Seq<Option<T>>) -> int
    decreases s.len(),
{
    if s.len() == 0 {
        0
    } else {
        num_occupied(s.drop_last()) + if s.last() is Some {
            1int
        } else {
            0int
        }
    }
}

/// The index of the first free slot of `s` at or after `i`; `s.len()` if none.
pub open spec fn first_free_from<T>(s: Seq<Option<T>>, i: int) -> int
    decreases s.len() - i,
    when 0 <= i <= s.len()
{
    if i >= s.len() {
        s.len() as int
    } else if s[i] is None {
        i
    } else {
        first_free_from(s, i + 1)
    }
}

/// Whether bit `i` of the packed bitset words is set (a set bit means free).
pub open spec fn bit_free(words: Seq<u64>, i: int) -> bool {
    words[i / 64] & (1u64 << ((i % 64) as u64)) != 0
}

/// `num_occupied` counts between 0 and the length.
pub proof fn lemma_num_occupied_bounds<T>(s: Seq<Option<T>>)
    ensures
        0 <= num_occupied(s) <= s.len(),
    decreases s.len(),
{
    if s.len() > 0 {
        lemma_num_occupied_bounds(s.drop_last());
    }
}

/// Updating one slot moves `num_occupied` by the difference the slot makes.
pub proof fn lemma_num_occupied_update<T>(s: Seq<Option<T>>, i: int, v: Option<T>)
    requires
        0 <= i < s.len(),
    ensures
        num_occupied(s.update(i, v)) == num_occupied(s) - (if s[i] is Some {
            1int
        } else {
            0int
        }) + (if v is Some {
            1int
        } else {
            0int
        }),
    decreases s.len(),
{
    let t = s.update(i, v);
    if i == s.len() - 1 {
        assert(t.drop_last() =~= s.drop_last());
    } else {
        assert(t.drop_last() =~= s.drop_last().update(i, v));
        lemma_num_occupied_update(s.drop_last(), i, v);
    }
}

/// A sequence whose slots are all occupied counts full.
proof fn lemma_num_occupied_full<T>(s: Seq<Option<T>>)
    requires
        forall|j: int| 0 <= j < s.len() ==> s[j] is Some,
    ensures
        num_occupied(s) == s.len(),
    decreases s.len(),
{
    if s.len() > 0 {
        lemma_num_occupied_full(s.drop_last());
    }
}

/// Where every slot in `[i, k)` is occupied and `k` is free (or the end),
/// the first free slot at or after `i` is `k`.
proof fn lemma_first_free_from_is<T>(s: Seq<Option<T>>, i: int, k: int)
    requires
        0 <= i <= k <= s.len(),
        forall|j: int| i <= j < k ==> s[j] is Some,
        k < s.len() ==> s[k] is None,
    ensures
        first_free_from(s, i) == k,
    decreases k - i,
{
    if i < k {
        lemma_first_free_from_is(s, i + 1, k);
    }
}

/// `(w * 64 + b) / 64 == w` and `(w * 64 + b) % 64 == b` for a bit offset `b`.
proof fn lemma_bit_index(w: int, b: int)
    requires
        0 <= w,
        0 <= b < 64,
    ensures
        (w * 64 + b) / 64 == w,
        (w * 64 + b) % 64 == b,
{
    assert((w * 64 + b) / 64 == w && (w * 64 + b) % 64 == b) by (nonlinear_arith)
        requires
            0 <= w,
            0 <= b < 64,
    ;
}

/// A slab allocator for connection state.
pub struct ConnectionSlab<T> {
    slots: Vec<Option<T>>,
    /// Bitset tracking free slots (1 = free), 64 slots per word.
    free_bitset: Vec<u64>,
    /// Number of occupied slots.
    allocated: usize,
    /// Total capacity.
    capacity: usize,
}

impl<T> View for ConnectionSlab<T> {
    type V = Seq<Option<T>>;

    closed spec fn view(&self) -> Seq<Option<T>> {
        self.slots@
    }
}

impl<T> ConnectionSlab<T> {
    /// The fixed capacity the slab was created with.
    pub closed spec fn spec_capacity(&self) -> int {
        self.capacity as int
    }

    /// Well-formedness: the bitset mirrors the slots, bits beyond the
    /// capacity are zero, and the allocation counter equals the number of
    /// occupied slots.
    pub closed spec fn wf(&self) -> bool {
        &&& self.slots@.len() == self.capacity
        &&& self.free_bitset@.len() == (self.capacity + 63) / 64
        &&& self.capacity + 63 <= usize::MAX
        &&& forall|i: int|
            0 <= i < self.capacity ==> ((self.slots@[i] is None) <==> bit_free(
                self.free_bitset@,
                i,
            ))
        &&& forall|i: int|
            self.capacity <= i < self.free_bitset@.len() * 64 ==> !bit_free(self.free_bitset@, i)
        &&& self.allocated == num_occupied(self.slots@)
    }

    /// Create a new slab with the given capacity, all slots free.
    pub fn new(capacity: usize) -> (r: Self)
        requires
            capacity + 63 <= usize::MAX,
        ensures
            r.wf(),
            r.spec_capacity() == capacity,
            r@.len() == capacity,
            forall|i: int| 0 <= i < capacity ==> r@[i] is None,
    {
        let num_words = (capacity + 63) / 64;

        let mut slots: Vec<Option<T>> = Vec::with_capacity(capacity);
        let mut i: usize = 0;
        while i < capacity
            invariant
                i <= capacity,
                slots@.len() == i,
                forall|j: int| 0 <= j < i ==> slots@[j] is None,
            decreases capacity - i,
        {
            slots.push(None);
            i += 1;
        }

        let mut free_bitset: Vec<u64> = Vec::with_capacity(num_words);
        let mut w: usize = 0;
        while w < num_words
            invariant
                w <= num_words,
                num_words == (capacity + 63) / 64,
                capacity + 63 <= usize::MAX,
                free_bitset@.len() == w,
                forall|i: int|
                    0 <= i < w * 64 ==> (bit_free(free_bitset@, i) <==> i < capacity),
            decreases num_words - w,
        {
            proof {
                // every word of the loop lies below the ceiling-rounded count
                assert(num_words * 64 <= capacity + 63) by (nonlinear_arith)
                    requires
                        num_words == (capacity + 63) / 64,
                        capacity + 63 <= usize::MAX,
                ;
                assert(w as int * 64 < capacity) by (nonlinear_arith)
                    requires
                        w < num_words,
                        num_words * 64 <= capacity + 63,
                ;
            }
            let word: u64 = if (w + 1) * 64 <= capacity {
                u64::MAX
            } else {
                // last, partially valid word: low `capacity - w * 64` bits set
                let valid: usize = capacity - w * 64;
                !(u64::MAX << (valid as u64))
            };
            let ghost pre = free_bitset@;
            free_bitset.push(word);
            proof {
                assert forall|i: int| 0 <= i < (w + 1) * 64 implies (bit_free(free_bitset@, i)
                    <==> i < capacity) by {
                    if i < w * 64 {
                        assert(0 <= i / 64 < w) by (nonlinear_arith)
                            requires
                                0 <= i < w * 64,
                        ;
                        assert(free_bitset@[i / 64] == pre[i / 64]);
                        assert(bit_free(free_bitset@, i) <==> bit_free(pre, i));
                    } else {
                        let b = i - w * 64;
                        lemma_bit_index(w as int, b);
                        assert(free_bitset@[i / 64] == word);
                        let bu = b as u64;
                        if (w + 1) * 64 <= capacity {
                            assert(word & (1u64 << bu) != 0) by (bit_vector)
                                requires
                                    word == 0xffff_ffff_ffff_ffffu64,
                                    bu < 64,
                            ;
                        } else {
                            let vu = (capacity - w * 64) as u64;
                            assert((word & (1u64 << bu) != 0) <==> bu < vu) by (bit_vector)
                                requires
                                    word == !(0xffff_ffff_ffff_ffffu64 << vu),
                                    vu < 64,
                                    bu < 64,
                            ;
                        }
                    }
                }
            }
            w += 1;
        }

        let r = ConnectionSlab { slots, free_bitset, allocated: 0, capacity };
        proof {
            lemma_num_occupied_full::<T>(Seq::empty());
            assert(num_occupied(r.slots@) == 0) by {
                lemma_all_free_num_occupied(r.slots@);
            }
            assert forall|i: int|
                capacity <= i < r.free_bitset@.len() * 64 implies !bit_free(r.free_bitset@, i) by {
                assert(r.free_bitset@.len() == num_words);
                assert(i < num_words * 64);
            }
        }
        r
    }

    /// Allocate the lowest free slot and store `value` in it.
    /// Returns the slot's handle, or `None` when the slab is full.
    pub fn insert(&mut self, value: T) -> (r: Option<SlabHandle>)
        requires
            old(self).wf(),
        ensures
            final(self).wf(),
            final(self).spec_capacity() == old(self).spec_capacity(),
            match r {
                Some(h) => {
                    &&& 0 <= h.0 < old(self)@.len()
                    &&& old(self)@[h.0 as int] is None
                    &&& h.0 == first_free_from(old(self)@, 0)
                    &&& final(self)@ == old(self)@.update(h.0 as int, Some(value))
                },
                None => {
                    &&& final(self)@ == old(self)@
                    &&& num_occupied(old(self)@) == old(self)@.len()
                    &&& first_free_from(old(self)@, 0) == old(self)@.len()
                },
            },
    {
        let num_words = self.free_bitset.len();
        let mut word_idx: usize = 0;
        while word_idx < num_words
            invariant
                *self == *old(self),
                self.wf(),
                num_words == self.free_bitset@.len(),
                word_idx <= num_words,
                forall|j: int| 0 <= j < word_idx * 64 ==> !bit_free(self.free_bitset@, j),
            decreases num_words - word_idx,
        {
            let w = self.free_bitset[word_idx];
            if w != 0 {
                let bit = w.trailing_zeros() as usize;
                let slot_idx = word_idx * 64 + bit;
                proof {
                    let b = bit as u64;
                    assert(b < 64);
                    assert((w >> b) & 1u64 == 1u64);
                    assert(forall|x: u64, b: u64|
                        b < 64 && (x >> b) & 1u64 == 1u64 ==> x & (1u64 << b) != 0)
                        by (bit_vector);
                    lemma_bit_index(word_idx as int, bit as int);
                    assert(bit_free(self.free_bitset@, slot_idx as int));
                    // a free bit is always within the capacity
                    assert(slot_idx < self.capacity);
                    // every slot below slot_idx is occupied
                    assert forall|j: int| 0 <= j < slot_idx implies self.slots@[j] is Some by {
                        if j < word_idx * 64 {
                            assert(!bit_free(self.free_bitset@, j));
                        } else {
                            let bj = j - word_idx * 64;
                            lemma_bit_index(word_idx as int, bj);
                            assert((w >> (bj as u64)) & 1u64 == 0u64);
                            assert(forall|x: u64, b: u64|
                                b < 64 && (x >> b) & 1u64 == 0u64 ==> x & (1u64 << b) == 0)
                                by (bit_vector);
                            assert(!bit_free(self.free_bitset@, j));
                        }
                    }
                    lemma_first_free_from_is(self.slots@, 0, slot_idx as int);
                    lemma_num_occupied_update(self.slots@, slot_idx as int, Some(value));
                    lemma_num_occupied_bounds(self.slots@.update(slot_idx as int, Some(value)));
                }
                let mask: u64 = 1u64 << (bit as u64);
                let new_word = w & !mask;
                let ghost old_words = self.free_bitset@;
                let ghost old_slots = self.slots@;
                self.free_bitset[word_idx] = new_word;
                self.slots[slot_idx] = Some(value);
                self.allocated = self.allocated + 1;
                proof {
                    assert forall|i: int|
                        0 <= i < self.free_bitset@.len() * 64 implies (bit_free(
                        self.free_bitset@,
                        i,
                    ) <==> (bit_free(old_words, i) && i != slot_idx)) by {
                        vstd::arithmetic::div_mod::lemma_mod_bound(i, 64);
                        if i / 64 == word_idx {
                            let bi = i % 64;
                            assert(i == word_idx * 64 + bi) by (nonlinear_arith)
                                requires
                                    i / 64 == word_idx && bi == i % 64 && 0 <= i,
                            ;
                            let c = bi as u64;
                            assert((new_word & (1u64 << c) != 0) <==> (w & (1u64 << c) != 0 && c
                                != bit as u64)) by (bit_vector)
                                requires
                                    new_word == w & !(1u64 << (bit as u64)),
                                    (bit as u64) < 64,
                                    c < 64,
                            ;
                            assert(self.free_bitset@[i / 64] == new_word);
                            assert(old_words[i / 64] == w);
                        } else {
                            assert(self.free_bitset@[i / 64] == old_words[i / 64]);
                            assert(i / 64 != word_idx ==> i != slot_idx);
                        }
                    }
                    assert(self.slots@ == old_slots.update(slot_idx as int, Some(value)));
                    assert(old_words == old(self).free_bitset@ && old_slots == old(self).slots@);
                    assert forall|i: int|
                        0 <= i < self.capacity implies ((self.slots@[i] is None) <==> bit_free(
                        self.free_bitset@,
                        i,
                    )) by {
                        assert((old_slots[i] is None) <==> bit_free(old_words, i));
                        assert(bit_free(self.free_bitset@, i) <==> (bit_free(old_words, i) && i
                            != slot_idx));
                    }
                    assert forall|i: int|
                        self.capacity <= i < self.free_bitset@.len() * 64 implies !bit_free(
                        self.free_bitset@,
                        i,
                    ) by {
                        assert(!bit_free(old_words, i));
                        assert(bit_free(self.free_bitset@, i) <==> (bit_free(old_words, i) && i
                            != slot_idx));
                    }
                    assert(self.wf());
                }
                return Some(SlabHandle(slot_idx));
            }
            proof {
                assert(forall|x: u64, b: u64| b < 64 && x == 0 ==> x & (1u64 << b) == 0)
                    by (bit_vector);
                assert forall|j: int|
                    0 <= j < (word_idx + 1) * 64 implies !bit_free(self.free_bitset@, j) by {
                    if j >= word_idx * 64 {
                        let bj = j - word_idx * 64;
                        lemma_bit_index(word_idx as int, bj);
                    }
                }
            }
            word_idx += 1;
        }
        proof {
            assert forall|j: int| 0 <= j < self.slots@.len() implies self.slots@[j] is Some by {
                assert(j < num_words * 64) by (nonlinear_arith)
                    requires
                        0 <= j < self.capacity as int && self.capacity <= num_words * 64,
                ;
                assert(!bit_free(self.free_bitset@, j));
            }
            lemma_num_occupied_full(self.slots@);
            lemma_first_free_from_is(self.slots@, 0, self.slots@.len() as int);
        }
        None
    }

    /// Take the value out of the slot and mark it free again.
    /// Returns `None` when the handle is out of range or the slot is vacant.
    pub fn remove(&mut self, handle: SlabHandle) -> (r: Option<T>)
        requires
            old(self).wf(),
        ensures
            final(self).wf(),
            final(self).spec_capacity() == old(self).spec_capacity(),
            match r {
                Some(v) => handle.0 < old(self)@.len() && old(self)@[handle.0 as int] == Some(v)
                    && final(self)@ == old(self)@.update(handle.0 as int, None),
                None => (handle.0 >= old(self)@.len() || old(self)@[handle.0 as int] is None)
                    && final(self)@ == old(self)@,
            },
    {
        let idx = handle.0;
        if idx >= self.capacity {
            return None;
        }
        let slot = &mut self.slots[idx];
        let value = slot.take();
        match value {
            None => {
                proof {
                    assert(self.slots@ =~= old(self).slots@);
                }
                None
            },
            Some(v) => {
                proof {
                    lemma_num_occupied_update(old(self).slots@, idx as int, None);
                    lemma_num_occupied_bounds(self.slots@);
                }
                let word_idx = idx / 64;
                let bit = idx % 64;
                proof {
                    assert(word_idx < self.free_bitset@.len()) by (nonlinear_arith)
                        requires
                            word_idx == idx as int / 64 && 0 <= idx < self.capacity
                                && self.free_bitset@.len() == (self.capacity + 63) / 64,
                    ;
                    vstd::arithmetic::div_mod::lemma_mod_bound(idx as int, 64);
                }
                let mask: u64 = 1u64 << (bit as u64);
                let w = self.free_bitset[word_idx];
                let ghost old_words = self.free_bitset@;
                self.free_bitset[word_idx] = w | mask;
                self.allocated = self.allocated - 1;
                proof {
                    assert(idx as int == word_idx * 64 + bit) by (nonlinear_arith)
                        requires
                            word_idx == idx as int / 64 && bit == idx as int % 64 && 0 <= idx,
                    ;
                    assert forall|i: int|
                        0 <= i < self.free_bitset@.len() * 64 implies (bit_free(
                        self.free_bitset@,
                        i,
                    ) <==> (bit_free(old_words, i) || i == idx)) by {
                        vstd::arithmetic::div_mod::lemma_mod_bound(i, 64);
                        if i / 64 == word_idx {
                            let bi = i % 64;
                            assert(i == word_idx * 64 + bi) by (nonlinear_arith)
                                requires
                                    i / 64 == word_idx && bi == i % 64 && 0 <= i,
                            ;
                            let c = bi as u64;
                            assert(((w | (1u64 << (bit as u64))) & (1u64 << c) != 0) <==> (w & (
                            1u64 << c) != 0 || c == bit as u64)) by (bit_vector)
                                requires
                                    (bit as u64) < 64,
                                    c < 64,
                            ;
                            assert(self.free_bitset@[i / 64] == (w | (1u64 << (bit as u64))));
                            assert(old_words[i / 64] == w);
                        } else {
                            assert(self.free_bitset@[i / 64] == old_words[i / 64]);
                            assert(i / 64 != word_idx ==> i != idx);
                        }
                    }
                    assert(self.slots@ == old(self).slots@.update(idx as int, None));
                    assert forall|i: int|
                        0 <= i < self.capacity implies ((self.slots@[i] is None) <==> bit_free(
                        self.free_bitset@,
                        i,
                    )) by {
                        assert((old(self).slots@[i] is None) <==> bit_free(old_words, i));
                        assert(bit_free(self.free_bitset@, i) <==> (bit_free(old_words, i) || i
                            == idx));
                    }
                    assert forall|i: int|
                        self.capacity <= i < self.free_bitset@.len() * 64 implies !bit_free(
                        self.free_bitset@,
                        i,
                    ) by {
                        assert(!bit_free(old_words, i));
                        assert(bit_free(self.free_bitset@, i) <==> (bit_free(old_words, i) || i
                            == idx));
                    }
                    assert(self.wf());
                }
                Some(v)
            },
        }
    }

    /// Borrow the value at the handle, if the slot is occupied.
    pub fn get(&self, handle: SlabHandle) -> (r: Option<&T>)
        requires
            self.wf(),
        ensures
            match r {
                Some(v) => handle.0 < self@.len() && self@[handle.0 as int] == Some(*v),
                None => handle.0 >= self@.len() || self@[handle.0 as int] is None,
            },
    {
        let idx = handle.0;
        if idx >= self.capacity {
            return None;
        }
        match &self.slots[idx] {
            Some(v) => Some(v),
            None => None,
        }
    }

    /// Borrow the value at the handle mutably, if the slot is occupied.
    /// The slot stays occupied whatever the caller writes through the borrow.
    pub fn get_mut(&mut self, handle: SlabHandle) -> (r: Option<&mut T>)
        requires
            old(self).wf(),
        ensures
            final(self).wf(),
            final(self).spec_capacity() == old(self).spec_capacity(),
            match r {
                Some(v) => handle.0 < old(self)@.len() && old(self)@[handle.0 as int] == Some(*v)
                    && final(self)@ == old(self)@.update(handle.0 as int, Some(*final(v))),
                None => (handle.0 >= old(self)@.len() || old(self)@[handle.0 as int] is None)
                    && final(self)@ == old(self)@,
            },
    {
        let idx = handle.0;
        if idx >= self.capacity {
            proof {
                assert(self.slots@ =~= old(self).slots@);
            }
            return None;
        }
        if self.slots[idx].is_none() {
            proof {
                assert(self.slots@ =~= old(self).slots@);
            }
            return None;
        }
        let slot = &mut self.slots[idx];
        match slot {
            Some(v) => {
                proof {
                    lemma_num_occupied_update(old(self).slots@, idx as int, Some(*final(v)));
                }
                Some(v)
            },
            None => None,
        }
    }

    /// The number of occupied slots.
    pub fn len(&self) -> (r: usize)
        requires
            self.wf(),
        ensures
            r == num_occupied(self@),
    {
        self.allocated
    }

    /// Whether no slot is occupied.
    pub fn is_empty(&self) -> (r: bool)
        requires
            self.wf(),
        ensures
            r == (num_occupied(self@) == 0),
    {
        self.allocated == 0
    }

    /// The fixed capacity.
    pub fn capacity(&self) -> (r: usize)
        requires
            self.wf(),
        ensures
            r == self.spec_capacity(),
    {
        self.capacity
    }

    /// Whether every slot is occupied.
    pub fn is_full(&self) -> (r: bool)
        requires
            self.wf(),
        ensures
            r == (num_occupied(self@) == self.spec_capacity()),
    {
        proof {
            lemma_num_occupied_bounds(self.slots@);
        }
        self.allocated >= self.capacity
    }
}

/// Every slot `None` means nothing is occupied.
pub proof fn lemma_all_free_num_occupied<T>(s: Seq<Option<T>>)
    requires
        forall|j: int| 0 <= j < s.len() ==> s[j] is None,
    ensures
        num_occupied(s) == 0,
    decreases s.len(),
{
    if s.len() > 0 {
        lemma_all_free_num_occupied(s.drop_last());
    }
}

/// A sequence with a vacant slot counts strictly below its length.
pub proof fn lemma_num_occupied_below<T>(s: Seq<Option<T>>, i: int)
    requires
        0 <= i < s.len(),
        s[i] is None,
    ensures
        num_occupied(s) < s.len(),
    decreases s.len(),
{
    if i == s.len() - 1 {
        lemma_num_occupied_bounds(s.drop_last());
    } else {
        lemma_num_occupied_below(s.drop_last(), i);
    }
}

/// Law: a well-formed slab holds exactly `spec_capacity()` slots and has a
/// free slot exactly while the occupied count is below the capacity: an
/// insert at one below capacity succeeds, and one at capacity is refused
/// with the slab unchanged.
pub proof fn lemma_slab_insert_boundary<T>(s: &ConnectionSlab<T>)
    requires
        s.wf(),
    ensures
        s@.len() == s.spec_capacity(),
        (first_free_from(s@, 0) < s@.len()) <==> (num_occupied(s@) < s.spec_capacity()),
{
    lemma_first_free_from_free(s@, 0);
    let f = first_free_from(s@, 0);
    if f < s@.len() {
        lemma_num_occupied_below(s@, f);
    } else {
        lemma_num_occupied_full(s@);
    }
}

/// Law: after inserting into the lowest free slot, removing that slot, and
/// inserting again with no other insert in between, the second insert chooses
/// the same slot index.
pub proof fn lemma_slab_reuse<T>(s0: Seq<Option<T>>, v: T)
    requires
        first_free_from(s0, 0) < s0.len(),
    ensures
        ({
            let i = first_free_from(s0, 0);
            let s1 = s0.update(i, Some(v));
            let s2 = s1.update(i, None);
            first_free_from(s2, 0) == i
        }),
{
    let i = first_free_from(s0, 0);
    lemma_first_free_from_free(s0, 0);
    let s2 = s0.update(i, Some(v)).update(i, None);
    assert(s2 =~= s0);
}

/// The first free slot is indeed free, and everything before it is occupied.
pub proof fn lemma_first_free_from_free<T>(s: Seq<Option<T>>, i: int)
    requires
        0 <= i <= s.len(),
    ensures
        i <= first_free_from(s, i) <= s.len(),
        first_free_from(s, i) < s.len() ==> s[first_free_from(s, i)] is None,
        forall|j: int| i <= j < first_free_from(s, i) ==> s[j] is Some,
    decreases s.len() - i,
{
    if i < s.len() && s[i] is Some {
        lemma_first_free_from_free(s, i + 1);
    }
}

} // verus!
