//! The wakeup set: a 32-wide set of thread ids held in one machine word.

use vstd::prelude::*;

verus! {

/// Whether bit `id` of `mask` is set.
pub open spec fn bit_is_set(mask: u32, id: u32) -> bool {
    (mask >> id) & 1 == 1
}

/// The thread ids that a 32-bit mask stands for: id `i` is a member exactly
/// when bit `i` is set.
pub open spec fn mask_ids(mask: u32) -> Set<int> {
    Set::new(|id: int| 0 <= id < 32 && bit_is_set(mask, id as u32))
}

proof fn lemma_bit_of_zero(i: u32)
    requires
        i < 32,
    ensures
        !bit_is_set(0, i),
{
    assert((0u32 >> i) & 1 == 0) by (bit_vector)
        requires
            i < 32,
    ;
}

proof fn lemma_bit_of_or(a: u32, b: u32, i: u32)
    requires
        i < 32,
    ensures
        bit_is_set(a | b, i) == (bit_is_set(a, i) || bit_is_set(b, i)),
{
    assert((((a | b) >> i) & 1 == 1) == (((a >> i) & 1 == 1) || ((b >> i) & 1 == 1)))
        by (bit_vector)
        requires
            i < 32,
    ;
}

proof fn lemma_bit_of_single(k: u32, i: u32)
    requires
        k < 32,
        i < 32,
    ensures
        bit_is_set(1u32 << k, i) == (i == k),
{
    assert((((1u32 << k) >> i) & 1 == 1) == (i == k)) by (bit_vector)
        requires
            k < 32,
            i < 32,
    ;
}

proof fn lemma_bit_of_cleared(a: u32, k: u32, i: u32)
    requires
        k < 32,
        i < 32,
    ensures
        bit_is_set(a & !(1u32 << k), i) == (bit_is_set(a, i) && i != k),
{
    assert((((a & !(1u32 << k)) >> i) & 1 == 1) == (((a >> i) & 1 == 1) && i != k))
        by (bit_vector)
        requires
            k < 32,
            i < 32,
    ;
}

proof fn lemma_nonzero_has_bit(a: u32)
    requires
        a != 0,
    ensures
        exists|i: u32| i < 32 && bit_is_set(a, i),
{
    assert(a != 0 ==> (bit_is_set(a, 0) || bit_is_set(a, 1) || bit_is_set(a, 2) || bit_is_set(a, 3) || bit_is_set(a, 4) || bit_is_set(a, 5) || bit_is_set(a, 6) || bit_is_set(a, 7) || bit_is_set(a, 8) || bit_is_set(a, 9) || bit_is_set(a, 10) || bit_is_set(a, 11) || bit_is_set(a, 12) || bit_is_set(a, 13) || bit_is_set(a, 14) || bit_is_set(a, 15) || bit_is_set(a, 16) || bit_is_set(a, 17) || bit_is_set(a, 18) || bit_is_set(a, 19) || bit_is_set(a, 20) || bit_is_set(a, 21) || bit_is_set(a, 22) || bit_is_set(a, 23) || bit_is_set(a, 24) || bit_is_set(a, 25) || bit_is_set(a, 26) || bit_is_set(a, 27) || bit_is_set(a, 28) || bit_is_set(a, 29) || bit_is_set(a, 30) || bit_is_set(a, 31))) by (bit_vector);
}

proof fn lemma_bit_of_xor(a: u32, b: u32, i: u32)
    requires
        i < 32,
    ensures
        bit_is_set(a ^ b, i) == (bit_is_set(a, i) != bit_is_set(b, i)),
        (a ^ b) == 0 <==> a == b,
{
    assert(bit_is_set(a ^ b, i) == (bit_is_set(a, i) != bit_is_set(b, i))) by (bit_vector)
        requires
            i < 32,
    ;
    assert((a ^ b) == 0 <==> a == b) by (bit_vector);
}

/// The empty mask stands for the empty set.
pub proof fn lemma_mask_ids_zero()
    ensures
        mask_ids(0) == Set::<int>::empty(),
{
    assert forall|id: int| !mask_ids(0).contains(id) by {
        if 0 <= id < 32 {
            lemma_bit_of_zero(id as u32);
        }
    }
    assert(mask_ids(0) =~= Set::<int>::empty());
}

/// Only the empty mask stands for the empty set.
pub proof fn lemma_mask_ids_empty(mask: u32)
    ensures
        (mask_ids(mask) == Set::<int>::empty()) <==> mask == 0,
{
    lemma_mask_ids_zero();
    if mask != 0 {
        lemma_nonzero_has_bit(mask);
        let i = choose|i: u32| i < 32 && bit_is_set(mask, i);
        assert(mask_ids(mask).contains(i as int));
    }
}

/// The union of two masks stands for the union of their sets.
pub proof fn lemma_mask_ids_or(a: u32, b: u32)
    ensures
        mask_ids(a | b) == mask_ids(a).union(mask_ids(b)),
{
    assert forall|id: int|
        mask_ids(a | b).contains(id) == mask_ids(a).union(mask_ids(b)).contains(id) by {
        if 0 <= id < 32 {
            lemma_bit_of_or(a, b, id as u32);
        }
    }
    assert(mask_ids(a | b) =~= mask_ids(a).union(mask_ids(b)));
}

/// A mask with one bit set stands for the set of that one id.
pub proof fn lemma_mask_ids_single(id: u8)
    requires
        id < 32,
    ensures
        mask_ids(1u32 << id) == Set::<int>::empty().insert(id as int),
{
    assert forall|j: int|
        mask_ids(1u32 << id).contains(j) == Set::<int>::empty().insert(id as int).contains(
            j,
        ) by {
        if 0 <= j < 32 {
            lemma_bit_of_single(id as u32, j as u32);
        }
    }
    assert(mask_ids(1u32 << id) =~= Set::<int>::empty().insert(id as int));
}

/// Clearing one bit of a mask removes that id from its set.
pub proof fn lemma_mask_ids_clear(mask: u32, id: u8)
    requires
        id < 32,
    ensures
        mask_ids(mask & !(1u32 << id)) == mask_ids(mask).remove(id as int),
{
    assert forall|j: int|
        mask_ids(mask & !(1u32 << id)).contains(j) == mask_ids(mask).remove(id as int).contains(
            j,
        ) by {
        if 0 <= j < 32 {
            lemma_bit_of_cleared(mask, id as u32, j as u32);
        }
    }
    assert(mask_ids(mask & !(1u32 << id)) =~= mask_ids(mask).remove(id as int));
}

/// Two masks that stand for the same set are the same mask.
pub proof fn lemma_mask_ids_injective(a: u32, b: u32)
    requires
        mask_ids(a) == mask_ids(b),
    ensures
        a == b,
{
    if a != b {
        lemma_bit_of_xor(a, b, 0);
        lemma_nonzero_has_bit(a ^ b);
        let i = choose|i: u32| i < 32 && bit_is_set(a ^ b, i);
        lemma_bit_of_xor(a, b, i);
        assert(mask_ids(a).contains(i as int) == bit_is_set(a, i));
    }
}

/// A set of at most 32 thread ids, one bit per id.
///
/// Each operation is one read-modify-write of the word. The set is a plain
/// value: where threads and interrupt handlers share one, each operation has
/// the set to itself for its duration.
pub struct ThreadList {
    threads: u32,
}

impl View for ThreadList {
    type V = Set<int>;

    /// The ids whose bit is set.
    closed spec fn view(&self) -> Set<int> {
        mask_ids(self.threads)
    }
}

impl ThreadList {
    /// The empty set.
    pub fn new() -> (list: Self)
        ensures
            list@ == Set::<int>::empty(),
    {
        proof {
            lemma_mask_ids_zero();
        }
        ThreadList { threads: 0 }
    }

    /// Adds every id of the mask `ids` in one step.
    pub fn add_all(&mut self, ids: u32)
        ensures
            final(self)@ == old(self)@.union(mask_ids(ids)),
    {
        proof {
            lemma_mask_ids_or(self.threads, ids);
        }
        self.threads = self.threads | ids;
    }

    /// Adds the id `task`.
    pub fn add(&mut self, task: u8)
        requires
            task < 32,
        ensures
            final(self)@ == old(self)@.insert(task as int),
    {
        proof {
            lemma_mask_ids_or(self.threads, 1u32 << task);
            lemma_mask_ids_single(task);
            assert(old(self)@.union(Set::<int>::empty().insert(task as int)) =~= old(self)@.insert(
                task as int,
            ));
        }
        self.threads = self.threads | (1u32 << task);
    }

    /// Removes the id `task` and says whether it was a member.
    pub fn remove(&mut self, task: u8) -> (was_set: bool)
        requires
            task < 32,
        ensures
            was_set == old(self)@.contains(task as int),
            final(self)@ == old(self)@.remove(task as int),
    {
        let before = self.threads;
        proof {
            lemma_mask_ids_clear(before, task);
        }
        self.threads = before & !(1u32 << task);
        (before >> task) & 1 == 1
    }

    /// Whether the id `task` is a member.
    pub fn contains(&self, task: u8) -> (member: bool)
        requires
            task < 32,
        ensures
            member == self@.contains(task as int),
    {
        (self.threads >> task) & 1 == 1
    }

    /// Whether no id is a member.
    pub fn is_empty(&self) -> (empty: bool)
        ensures
            empty <==> self@ == Set::<int>::empty(),
    {
        proof {
            lemma_mask_ids_empty(self.threads);
        }
        self.threads == 0
    }

    /// Takes every member out and returns them as a mask.
    pub fn get_all(&mut self) -> (ids: u32)
        ensures
            mask_ids(ids) == old(self)@,
            final(self)@ == Set::<int>::empty(),
    {
        proof {
            lemma_mask_ids_zero();
        }
        let ids = self.threads;
        self.threads = 0;
        ids
    }
}

/// The ids of a drained set, handed out one by one in ascending order.
pub struct ThreadListIter {
    threads: u32,
    current: u8,
}

impl ThreadListIter {
    /// The ids that are still to be handed out.
    pub closed spec fn pending(&self) -> Set<int> {
        Set::new(|id: int| self.current <= id && mask_ids(self.threads).contains(id))
    }

    /// Starts at the lowest id of the mask `threads`.
    pub fn new(threads: u32) -> (iter: Self)
        ensures
            iter.pending() == mask_ids(threads),
    {
        let iter = ThreadListIter { threads, current: 0 };
        assert(iter.pending() =~= mask_ids(threads));
        iter
    }

    /// Hands out the lowest pending id, or `None` when none is left.
    pub fn next(&mut self) -> (item: Option<u8>)
        ensures
            match item {
                Some(id) => {
                    &&& old(self).pending().contains(id as int)
                    &&& forall|other: int| old(self).pending().contains(other) ==> id <= other
                    &&& final(self).pending() == old(self).pending().remove(id as int)
                },
                None => {
                    &&& old(self).pending() == Set::<int>::empty()
                    &&& final(self).pending() == Set::<int>::empty()
                },
            },
    {
        while self.current < 32
            invariant
                self.threads == old(self).threads,
                old(self).current <= self.current,
                forall|id: int|
                    old(self).current <= id < self.current ==> !mask_ids(self.threads).contains(id),
            decreases 32 - self.current,
        {
            if (self.threads >> self.current) & 1 == 1 {
                let found = self.current;
                self.current += 1;
                assert(self.pending() =~= old(self).pending().remove(found as int));
                return Some(found);
            }
            self.current += 1;
        }
        assert(old(self).pending() =~= Set::<int>::empty());
        assert(self.pending() =~= Set::<int>::empty());
        None
    }
}

impl ThreadList {
    /// Takes every member out and returns them as an iterator over their ids.
    pub fn get_iter(&mut self) -> (iter: ThreadListIter)
        ensures
            iter.pending() == old(self)@,
            final(self)@ == Set::<int>::empty(),
    {
        let ids = self.get_all();
        ThreadListIter::new(ids)
    }
}

} // verus!
