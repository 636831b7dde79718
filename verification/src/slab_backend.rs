//! Generational-slot-table backend.
//!
//! Wraps the `slab` crate's stable slot table: insertion takes the table's
//! native key (the head of its internal free list, or the next fresh
//! position), and a released key goes back onto that free list. The table
//! itself only allocates keys here; the items live in backing storage that
//! is allocated upfront and indexed by the key, so their addresses never
//! move. The `slab` crate would silently grow past its initial capacity, so
//! the fixed capacity is enforced explicitly before every insertion.
//!
//! The verifier sees the table through two names: `slab_keys`, the keys
//! currently in use, and `slab_spare`, the vacant entries its free list
//! holds for reuse.

use vstd::prelude::*;
use vstd::pervasive::unreached;

use crate::{ReservedSlot, Slabbable};

verus! {

/// Error types
#[derive(Debug, PartialEq)]
pub enum SlabSlabError {
    /// At Capacity, not able to take more
    AtCapacity(usize),
    /// Invalid index referred to
    InvalidIndex(usize),
}

#[verifier::external_type_specification]
#[verifier::external_body]
#[verifier::reject_recursive_types(T)]
pub struct ExSlab<T>(slab::Slab<T>);

/// The keys the slot table currently has in use.
pub uninterp spec fn slab_keys(s: slab::Slab<()>) -> Set<usize>;

/// The keys of the vacant entries the slot table's free list will reuse.
pub uninterp spec fn slab_spare(s: slab::Slab<()>) -> Set<usize>;

/// Relies on slab's `Slab::with_capacity`: a fresh table with no entries,
/// occupied or vacant.
#[verifier::external_body]
fn slab_new(cap: usize) -> (s: slab::Slab<()>)
    ensures
        slab_keys(s) == Set::<usize>::empty(),
        slab_spare(s) == Set::<usize>::empty(),
{
    slab::Slab::with_capacity(cap)
}

/// Relies on slab's `Slab::insert`: the key handed out is the head of the
/// free list when one is vacant, else the next fresh position (the number
/// of entries, in use plus vacant); either way it was not in use before.
#[verifier::external_body]
fn slab_insert(s: &mut slab::Slab<()>) -> (k: usize)
    ensures
        !slab_keys(*old(s)).contains(k),
        slab_keys(*final(s)) == slab_keys(*old(s)).insert(k),
        slab_spare(*old(s)) == Set::<usize>::empty() ==> k == slab_keys(*old(s)).len()
            && slab_spare(*final(s)) == slab_spare(*old(s)),
        slab_spare(*old(s)) != Set::<usize>::empty() ==> slab_spare(*old(s)).contains(k)
            && slab_spare(*final(s)) == slab_spare(*old(s)).remove(k),
{
    s.insert(())
}

/// Relies on slab's `Slab::try_remove`: removes the entry under a key in
/// use and leaves the key vacant, for the free list to reuse; a key not in
/// use is left alone.
#[verifier::external_body]
fn slab_try_remove(s: &mut slab::Slab<()>, key: usize) -> (removed: Option<()>)
    ensures
        removed is Some <==> slab_keys(*old(s)).contains(key),
        slab_keys(*old(s)).contains(key) ==> slab_keys(*final(s)) == slab_keys(
            *old(s),
        ).remove(key) && slab_spare(*final(s)) == slab_spare(*old(s)).insert(key),
        !slab_keys(*old(s)).contains(key) ==> slab_keys(*final(s)) == slab_keys(*old(s))
            && slab_spare(*final(s)) == slab_spare(*old(s)),
{
    s.try_remove(key)
}

/// Relies on slab's `Slab::contains`: whether a key is in use.
#[verifier::external_body]
fn slab_contains(s: &slab::Slab<()>, key: usize) -> (b: bool)
    ensures
        b == slab_keys(*s).contains(key),
{
    s.contains(key)
}

/// Holder
pub struct SlabSlab<T> {
    inner: slab::Slab<()>,
    storage: Vec<Option<T>>,
    count: usize,
    max_capacity: usize,
}

impl<T> SlabSlab<T> {
    /// Well-formedness reads only the shape of the backing storage (which
    /// cells are filled), never the items' values.
    broadcast proof fn wf_structural(pre: Self, post: Self)
        requires
            #[trigger] pre.wf(),
            post.inner == pre.inner,
            post.count == pre.count,
            post.max_capacity == pre.max_capacity,
            post.storage@.len() == pre.storage@.len(),
            forall|p: int|
                0 <= p < pre.storage@.len() ==> (pre.storage@[p] is Some <==> post.storage@[p]
                    is Some),
        ensures
            #[trigger] post.wf(),
    {
        assert(post.taken().dom() =~= pre.taken().dom());
        assert(post.reserved() =~= pre.reserved());
    }

    closed spec fn wf_bookkeeping(&self) -> bool {
        &&& self.count <= self.max_capacity
        &&& self.storage@.len() == self.max_capacity
        &&& slab_keys(self.inner).finite()
        &&& slab_spare(self.inner).finite()
        &&& slab_keys(self.inner).len() == self.count
        &&& (forall|k: usize| #[trigger] slab_keys(self.inner).contains(k)
            ==> k < self.max_capacity)
        &&& (forall|k: usize| #[trigger] slab_spare(self.inner).contains(k)
            ==> k < self.max_capacity)
        &&& (forall|p: int|
            0 <= p < self.storage@.len() && self.storage@[p] is Some ==> slab_keys(
                self.inner,
            ).contains(p as usize))
    }
}

impl<T> Slabbable<T> for SlabSlab<T> {
    type Error = SlabSlabError;

    closed spec fn taken(&self) -> Map<usize, T> {
        Map::new(
            |k: usize| k < self.max_capacity && self.storage@[k as int] is Some,
            |k: usize| self.storage@[k as int].unwrap(),
        )
    }

    closed spec fn reserved(&self) -> Set<usize> {
        Set::new(
            |k: usize| k < self.max_capacity && slab_keys(self.inner).contains(k)
                && self.storage@[k as int] is None,
        )
    }

    closed spec fn spec_capacity(&self) -> usize {
        self.max_capacity
    }

    closed spec fn wf(&self) -> bool {
        &&& self.wf_bookkeeping()
        &&& self.taken().dom().finite()
        &&& self.reserved().finite()
        &&& self.count == self.taken().dom().len() + self.reserved().len()
    }

    closed spec fn upcoming(&self) -> Option<usize> {
        None
    }

    closed spec fn can_issue(&self) -> bool {
        true
    }

    open spec fn in_range(&self, idx: usize) -> bool {
        idx <= self.spec_capacity()
    }

    open spec fn at_capacity_err(cap: usize) -> SlabSlabError {
        SlabSlabError::AtCapacity(cap)
    }

    open spec fn invalid_index_err(idx: usize) -> SlabSlabError {
        SlabSlabError::InvalidIndex(idx)
    }

    open spec fn is_bug_err(e: SlabSlabError) -> bool {
        false
    }

    open spec fn supports_reap() -> bool {
        false
    }

    /// See trait
    proof fn lemma_can_issue(&self) {
    }

    /// See trait
    proof fn lemma_wf_model(&self) {
    }

    /// See trait
    fn with_fixed_capacity(cap: usize) -> (r: Result<Self, SlabSlabError>) {
        let mut storage: Vec<Option<T>> = Vec::new();
        let mut i: usize = 0;
        while i < cap
            invariant
                i <= cap,
                storage@.len() == i,
                forall|j: int| 0 <= j < i ==> storage@[j] is None,
            decreases cap - i,
        {
            storage.push(None);
            i = i + 1;
        }
        let slab = SlabSlab { inner: slab_new(cap), storage, count: 0, max_capacity: cap };
        proof {
            assert(slab.taken() =~= Map::<usize, T>::empty());
            assert(slab.reserved() =~= Set::<usize>::empty());
        }
        Ok(slab)
    }

    /// See trait
    fn reserve_next(&mut self) -> (r: Result<ReservedSlot, SlabSlabError>) {
        if self.count >= self.max_capacity {
            proof {
                assert(self.taken() =~= old(self).taken());
                assert(self.reserved() =~= old(self).reserved());
            }
            return Err(SlabSlabError::AtCapacity(self.max_capacity));
        }
        let k = slab_insert(&mut self.inner);
        self.count = self.count + 1;
        proof {
            assert(k < self.max_capacity);
            assert(self.taken() =~= old(self).taken());
            assert(self.reserved() =~= old(self).reserved().insert(k));
        }
        Ok(ReservedSlot::issue(k))
    }

    /// See trait
    fn take_reserved_with(&mut self, slot: ReservedSlot, with: T) -> (r: Result<
        usize,
        SlabSlabError,
    >) {
        let id = slot.id();
        if !slab_contains(&self.inner, id) {
            proof {
                assert(self.taken() =~= old(self).taken());
                assert(self.reserved() =~= old(self).reserved());
            }
            return Err(SlabSlabError::InvalidIndex(id));
        }
        if self.storage[id].is_some() {
            proof {
                assert(self.taken() =~= old(self).taken());
                assert(self.reserved() =~= old(self).reserved());
            }
            return Err(SlabSlabError::InvalidIndex(id));
        }
        self.storage[id] = Some(with);
        proof {
            assert(self.taken() =~= old(self).taken().insert(id, with));
            assert(self.reserved() =~= old(self).reserved().remove(id));
        }
        Ok(id)
    }

    /// See trait
    fn take_next_with(&mut self, with: T) -> (r: Result<usize, SlabSlabError>) {
        if self.count >= self.max_capacity {
            proof {
                assert(self.taken() =~= old(self).taken());
                assert(self.reserved() =~= old(self).reserved());
            }
            return Err(SlabSlabError::AtCapacity(self.max_capacity));
        }
        let k = slab_insert(&mut self.inner);
        proof {
            assert(k < self.max_capacity);
        }
        self.storage[k] = Some(with);
        self.count = self.count + 1;
        proof {
            assert(self.taken() =~= old(self).taken().insert(k, with));
            assert(self.reserved() =~= old(self).reserved());
        }
        Ok(k)
    }

    /// See trait
    fn mark_for_reuse(&mut self, slot: usize) -> (r: Result<T, SlabSlabError>) {
        if slot >= self.max_capacity {
            return Err(SlabSlabError::InvalidIndex(slot));
        }
        let item = self.storage[slot].take();
        match item {
            Some(item) => {
                let removed = slab_try_remove(&mut self.inner, slot);
                proof {
                    assert(removed is Some);
                    assert(old(self).taken().dom().contains(slot));
                    vstd::set_lib::lemma_len_subset(
                        Set::empty().insert(slot),
                        old(self).taken().dom(),
                    );
                }
                self.count = self.count - 1;
                proof {
                    assert(self.taken() =~= old(self).taken().remove(slot));
                    assert(self.reserved() =~= old(self).reserved());
                }
                Ok(item)
            },
            None => {
                proof {
                    assert(self.taken() =~= old(self).taken());
                    assert(self.reserved() =~= old(self).reserved());
                }
                Err(SlabSlabError::InvalidIndex(slot))
            },
        }
    }

    /// See trait
    fn slot_get_ref(&self, slot: usize) -> (r: Result<Option<&T>, SlabSlabError>) {
        if slot > self.max_capacity {
            return Err(SlabSlabError::InvalidIndex(slot));
        }
        if slot == self.max_capacity {
            return Ok(None);
        }
        match &self.storage[slot] {
            Some(item) => Ok(Some(item)),
            None => Ok(None),
        }
    }

    /// See trait
    fn slot_get_mut(&mut self, slot: usize) -> (r: Result<Option<&mut T>, SlabSlabError>) {
        broadcast use SlabSlab::wf_structural;

        if slot > self.max_capacity {
            return Err(SlabSlabError::InvalidIndex(slot));
        }
        if slot == self.max_capacity {
            return Ok(None);
        }
        match &mut self.storage[slot] {
            Some(item) => Ok(Some(item)),
            None => Ok(None),
        }
    }

    /// See trait
    fn capacity(&self) -> (r: usize) {
        self.max_capacity
    }

    /// See trait
    fn remaining(&self) -> (r: Option<usize>) {
        let rem = self.max_capacity - self.count;
        if rem == 0 {
            None
        } else {
            Some(rem)
        }
    }

    /// See trait
    fn reap(&mut self) -> (r: Option<usize>) {
        // Not supported by this backend.
        None
    }
}

} // verus!
