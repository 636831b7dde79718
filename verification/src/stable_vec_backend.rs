//! Dense-array-with-free-slot backend.
//!
//! Wraps the `stable-vec` crate's stable vector: slots do not shift on
//! deletion and indices stay valid. The vector's own slot-search picks the
//! lowest empty slot for the next insertion, so a released position is
//! reused without moving existing entries. The items live in backing
//! storage allocated upfront and indexed by the slot, so their addresses
//! never move. The crate would reallocate when pushed past its capacity, so
//! the fixed capacity is enforced explicitly before every insertion.

use vstd::prelude::*;
use vstd::pervasive::unreached;

use crate::{lemma_small_set_misses_an_index, ReservedSlot, Slabbable};

verus! {

/// Error types
#[derive(Debug, PartialEq)]
pub enum StableVecSlabError {
    /// At Capacity, not able to take more
    AtCapacity(usize),
    /// Invalid index referred to
    InvalidIndex(usize),
}

/// Opaque holder for `stable_vec::StableVecFacade<(), BitVecCore<()>>`, the
/// slot table that tracks which indices are in use and finds empty ones.
/// The facade type cannot be declared to the verifier (its core type
/// parameter is bound by an outside trait), so it lives behind this struct
/// and is spoken of through `slot_table_filled` and `slot_table_cap`.
#[verifier::external_body]
pub struct SlotTable {
    inner: stable_vec::StableVecFacade<(), stable_vec::core::BitVecCore<()>>,
}

/// The slot indices the table currently has filled.
pub uninterp spec fn slot_table_filled(t: SlotTable) -> Set<usize>;

/// The number of slots the table has room for without reallocating.
pub uninterp spec fn slot_table_cap(t: SlotTable) -> usize;

/// Relies on stable-vec's `StableVecFacade::with_capacity`: a fresh table,
/// nothing filled, with room for at least `cap` slots.
#[verifier::external_body]
fn slot_table_new(cap: usize) -> (t: SlotTable)
    ensures
        slot_table_filled(t) == Set::<usize>::empty(),
        slot_table_cap(t) >= cap,
{
    SlotTable { inner: stable_vec::StableVecFacade::with_capacity(cap) }
}

/// Relies on stable-vec's `StableVecFacade::first_empty_slot_from`, started
/// at slot zero: the lowest empty slot, or `None` when every slot below the
/// table's room is filled.
#[verifier::external_body]
fn slot_table_first_empty(t: &SlotTable) -> (r: Option<usize>)
    ensures
        match r {
            Some(i) => {
                &&& i < slot_table_cap(*t)
                &&& !slot_table_filled(*t).contains(i)
                &&& forall|j: usize| j < i ==> slot_table_filled(*t).contains(j)
            },
            None => forall|j: usize|
                j < slot_table_cap(*t) ==> slot_table_filled(*t).contains(j),
        },
{
    t.inner.first_empty_slot_from(0)
}

/// Relies on stable-vec's `StableVecFacade::insert`: fills the empty slot
/// `i`, which must be below the table's room.
#[verifier::external_body]
fn slot_table_insert(t: &mut SlotTable, i: usize)
    requires
        i < slot_table_cap(*old(t)),
        !slot_table_filled(*old(t)).contains(i),
    ensures
        slot_table_filled(*final(t)) == slot_table_filled(*old(t)).insert(i),
        slot_table_cap(*final(t)) == slot_table_cap(*old(t)),
{
    let _ = t.inner.insert(i, ());
}

/// Relies on stable-vec's `StableVecFacade::remove`: empties slot `i`,
/// which must be below the table's room; a slot already empty is left
/// alone.
#[verifier::external_body]
fn slot_table_remove(t: &mut SlotTable, i: usize) -> (removed: Option<()>)
    requires
        i < slot_table_cap(*old(t)),
    ensures
        removed is Some <==> slot_table_filled(*old(t)).contains(i),
        slot_table_filled(*final(t)) == slot_table_filled(*old(t)).remove(i),
        slot_table_cap(*final(t)) == slot_table_cap(*old(t)),
{
    t.inner.remove(i)
}

/// Relies on stable-vec's `StableVecFacade::has_element_at`: whether slot
/// `i` is filled (false for any slot at or past the table's room).
#[verifier::external_body]
fn slot_table_has(t: &SlotTable, i: usize) -> (b: bool)
    ensures
        b == slot_table_filled(*t).contains(i),
{
    t.inner.has_element_at(i)
}

/// Holder
pub struct StableVecSlab<T> {
    inner: SlotTable,
    storage: Vec<Option<T>>,
    count: usize,
    max_capacity: usize,
}

impl<T> StableVecSlab<T> {
    /// Well-formedness reads only the shape of the backing storage (which
    /// cells are filled), never the items' values.
    broadcast proof fn wf_structural(pre: Self, post: Self)
        requires
            #[trigger] pre.wf(),
            post.inner == pre.inner,
            post.count == pre.count,
            post.max_capacity == pre.max_capacity,
            post.storage@.len() == pre.storage@.len(),
            forall|p: int|
                0 <= p < pre.storage@.len() ==> (pre.storage@[p] is Some <==> post.storage@[p]
                    is Some),
        ensures
            #[trigger] post.wf(),
    {
        assert(post.taken().dom() =~= pre.taken().dom());
        assert(post.reserved() =~= pre.reserved());
    }

    closed spec fn wf_bookkeeping(&self) -> bool {
        &&& self.count <= self.max_capacity
        &&& self.storage@.len() == self.max_capacity
        &&& slot_table_cap(self.inner) >= self.max_capacity
        &&& slot_table_filled(self.inner).finite()
        &&& slot_table_filled(self.inner).len() == self.count
        &&& (forall|k: usize| #[trigger] slot_table_filled(self.inner).contains(k)
            ==> k < self.max_capacity)
        &&& (forall|p: int|
            0 <= p < self.storage@.len() && self.storage@[p] is Some ==> slot_table_filled(
                self.inner,
            ).contains(p as usize))
    }

    /// Picks the lowest free slot; callable only below capacity.
    fn _lowest_free_slot(&self) -> (i: usize)
        requires
            self.wf(),
            self.count < self.max_capacity,
        ensures
            i < self.max_capacity,
            !slot_table_filled(self.inner).contains(i),
    {
        proof {
            lemma_small_set_misses_an_index(slot_table_filled(self.inner), self.max_capacity);
        }
        match slot_table_first_empty(&self.inner) {
            Some(i) => {
                proof {
                    let j = choose|j: usize|
                        j < self.max_capacity && !slot_table_filled(self.inner).contains(j);
                    assert(i <= j);
                }
                i
            },
            None => {
                proof {
                    let j = choose|j: usize|
                        j < self.max_capacity && !slot_table_filled(self.inner).contains(j);
                    assert(slot_table_filled(self.inner).contains(j));
                }
                unreached()
            },
        }
    }
}

impl<T> Slabbable<T> for StableVecSlab<T> {
    type Error = StableVecSlabError;

    closed spec fn taken(&self) -> Map<usize, T> {
        Map::new(
            |k: usize| k < self.max_capacity && self.storage@[k as int] is Some,
            |k: usize| self.storage@[k as int].unwrap(),
        )
    }

    closed spec fn reserved(&self) -> Set<usize> {
        Set::new(
            |k: usize| k < self.max_capacity && slot_table_filled(self.inner).contains(k)
                && self.storage@[k as int] is None,
        )
    }

    closed spec fn spec_capacity(&self) -> usize {
        self.max_capacity
    }

    closed spec fn wf(&self) -> bool {
        &&& self.wf_bookkeeping()
        &&& self.taken().dom().finite()
        &&& self.reserved().finite()
        &&& self.count == self.taken().dom().len() + self.reserved().len()
    }

    closed spec fn upcoming(&self) -> Option<usize> {
        None
    }

    closed spec fn can_issue(&self) -> bool {
        true
    }

    open spec fn in_range(&self, idx: usize) -> bool {
        idx <= self.spec_capacity()
    }

    open spec fn at_capacity_err(cap: usize) -> StableVecSlabError {
        StableVecSlabError::AtCapacity(cap)
    }

    open spec fn invalid_index_err(idx: usize) -> StableVecSlabError {
        StableVecSlabError::InvalidIndex(idx)
    }

    open spec fn is_bug_err(e: StableVecSlabError) -> bool {
        false
    }

    open spec fn supports_reap() -> bool {
        false
    }

    /// See trait
    proof fn lemma_can_issue(&self) {
    }

    /// See trait
    proof fn lemma_wf_model(&self) {
    }

    /// See trait
    fn with_fixed_capacity(cap: usize) -> (r: Result<Self, StableVecSlabError>) {
        let mut storage: Vec<Option<T>> = Vec::new();
        let mut i: usize = 0;
        while i < cap
            invariant
                i <= cap,
                storage@.len() == i,
                forall|j: int| 0 <= j < i ==> storage@[j] is None,
            decreases cap - i,
        {
            storage.push(None);
            i = i + 1;
        }
        let slab = StableVecSlab {
            inner: slot_table_new(cap),
            storage,
            count: 0,
            max_capacity: cap,
        };
        proof {
            assert(slab.taken() =~= Map::<usize, T>::empty());
            assert(slab.reserved() =~= Set::<usize>::empty());
        }
        Ok(slab)
    }

    /// See trait
    fn reserve_next(&mut self) -> (r: Result<ReservedSlot, StableVecSlabError>) {
        if self.count >= self.max_capacity {
            proof {
                assert(self.taken() =~= old(self).taken());
                assert(self.reserved() =~= old(self).reserved());
            }
            return Err(StableVecSlabError::AtCapacity(self.max_capacity));
        }
        let i = self._lowest_free_slot();
        slot_table_insert(&mut self.inner, i);
        self.count = self.count + 1;
        proof {
            assert(self.taken() =~= old(self).taken());
            assert(self.reserved() =~= old(self).reserved().insert(i));
        }
        Ok(ReservedSlot::issue(i))
    }

    /// See trait
    fn take_reserved_with(&mut self, slot: ReservedSlot, with: T) -> (r: Result<
        usize,
        StableVecSlabError,
    >) {
        let id = slot.id();
        if id >= self.max_capacity {
            return Err(StableVecSlabError::InvalidIndex(id));
        }
        if !slot_table_has(&self.inner, id) {
            proof {
                assert(self.taken() =~= old(self).taken());
                assert(self.reserved() =~= old(self).reserved());
            }
            return Err(StableVecSlabError::InvalidIndex(id));
        }
        if self.storage[id].is_some() {
            proof {
                assert(self.taken() =~= old(self).taken());
                assert(self.reserved() =~= old(self).reserved());
            }
            return Err(StableVecSlabError::InvalidIndex(id));
        }
        self.storage[id] = Some(with);
        proof {
            assert(self.taken() =~= old(self).taken().insert(id, with));
            assert(self.reserved() =~= old(self).reserved().remove(id));
        }
        Ok(id)
    }

    /// See trait
    fn take_next_with(&mut self, with: T) -> (r: Result<usize, StableVecSlabError>) {
        if self.count >= self.max_capacity {
            proof {
                assert(self.taken() =~= old(self).taken());
                assert(self.reserved() =~= old(self).reserved());
            }
            return Err(StableVecSlabError::AtCapacity(self.max_capacity));
        }
        let i = self._lowest_free_slot();
        slot_table_insert(&mut self.inner, i);
        self.storage[i] = Some(with);
        self.count = self.count + 1;
        proof {
            assert(self.taken() =~= old(self).taken().insert(i, with));
            assert(self.reserved() =~= old(self).reserved());
        }
        Ok(i)
    }

    /// See trait
    fn mark_for_reuse(&mut self, slot: usize) -> (r: Result<T, StableVecSlabError>) {
        if slot >= self.max_capacity {
            return Err(StableVecSlabError::InvalidIndex(slot));
        }
        let item = self.storage[slot].take();
        match item {
            Some(item) => {
                let removed = slot_table_remove(&mut self.inner, slot);
                proof {
                    assert(removed is Some);
                    assert(old(self).taken().dom().contains(slot));
                    vstd::set_lib::lemma_len_subset(
                        Set::empty().insert(slot),
                        old(self).taken().dom(),
                    );
                }
                self.count = self.count - 1;
                proof {
                    assert(self.taken() =~= old(self).taken().remove(slot));
                    assert(self.reserved() =~= old(self).reserved());
                }
                Ok(item)
            },
            None => {
                proof {
                    assert(self.taken() =~= old(self).taken());
                    assert(self.reserved() =~= old(self).reserved());
                }
                Err(StableVecSlabError::InvalidIndex(slot))
            },
        }
    }

    /// See trait
    fn slot_get_ref(&self, slot: usize) -> (r: Result<Option<&T>, StableVecSlabError>) {
        if slot > self.max_capacity {
            return Err(StableVecSlabError::InvalidIndex(slot));
        }
        if slot == self.max_capacity {
            return Ok(None);
        }
        match &self.storage[slot] {
            Some(item) => Ok(Some(item)),
            None => Ok(None),
        }
    }

    /// See trait
    fn slot_get_mut(&mut self, slot: usize) -> (r: Result<Option<&mut T>, StableVecSlabError>) {
        broadcast use StableVecSlab::wf_structural;

        if slot > self.max_capacity {
            return Err(StableVecSlabError::InvalidIndex(slot));
        }
        if slot == self.max_capacity {
            return Ok(None);
        }
        match &mut self.storage[slot] {
            Some(item) => Ok(Some(item)),
            None => Ok(None),
        }
    }

    /// See trait
    fn capacity(&self) -> (r: usize) {
        self.max_capacity
    }

    /// See trait
    fn remaining(&self) -> (r: Option<usize>) {
        let rem = self.max_capacity - self.count;
        if rem == 0 {
            None
        } else {
            Some(rem)
        }
    }

    /// See trait
    fn reap(&mut self) -> (r: Option<usize>) {
        // Not supported by this backend.
        None
    }
}

} // verus!
