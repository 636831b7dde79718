//! Sequential-hash-map backend.
//!
//! Items are keyed by the integer id the cycling policy issues. A
//! capacity-bounded hashbrown map with a non-hashing hasher (see
//! `crate::id_map`) maps each issued id to a position in the backing
//! storage, which is allocated upfront and never reallocated. The externally
//! promised fixed capacity is tracked independently of the map's own
//! reported capacity, which may over-report available headroom.

use vstd::prelude::*;
use vstd::pervasive::unreached;

use crate::id_map::{id_map_entries, id_map_get, id_map_insert, id_map_new, id_map_remove, IdMap};
use crate::{wrap_next, ReservedSlot, Slabbable};

verus! {

/// Error types
#[derive(Debug, PartialEq)]
pub enum NoHashSlabError {
    /// At Capacity, not able to take more
    AtCapacity(usize),
    /// Invalid index referred to
    InvalidIndex(usize),
    /// Entry already exists but the internal slot mechanism took it.
    /// This is a bug and should not happen.
    BugAlreadyOccupied,
}

/// Holder
pub struct NoHashSlab<T> {
    inner: IdMap,
    storage: Vec<Option<T>>,
    free_pos: Vec<usize>,
    count: usize,
    max_capacity: usize,
    // wraps
    cur: usize,
    // wraps
    rev: usize,
}

impl<T> NoHashSlab<T> {
    /// Well-formedness reads only the shape of the backing storage (which
    /// cells are filled), never the items' values.
    broadcast proof fn wf_structural(pre: Self, post: Self)
        requires
            #[trigger] pre.wf(),
            post.inner == pre.inner,
            post.free_pos == pre.free_pos,
            post.count == pre.count,
            post.max_capacity == pre.max_capacity,
            post.storage@.len() == pre.storage@.len(),
            forall|p: int|
                0 <= p < pre.storage@.len() ==> (pre.storage@[p] is Some <==> post.storage@[p]
                    is Some),
        ensures
            #[trigger] post.wf(),
    {
        assert(post.taken().dom() =~= pre.taken().dom());
        assert(post.reserved() =~= pre.reserved());
    }

    /// Bookkeeping entries: issued id to storage position.
    pub closed spec fn entries(&self) -> Map<usize, usize> {
        id_map_entries(self.inner)
    }

    /// The cycling cursor: the id the next issuance hands out.
    pub closed spec fn cursor(&self) -> usize {
        self.cur
    }

    closed spec fn wf_bookkeeping(&self) -> bool {
        &&& self.storage@.len() == self.max_capacity
        &&& self.free_pos@.len() + self.count == self.max_capacity
        &&& (forall|id: usize| #[trigger] self.entries().dom().contains(id)
            ==> self.entries()[id] < self.max_capacity)
        &&& (forall|id: usize| #[trigger] self.entries().dom().contains(id)
            ==> !self.free_pos@.contains(self.entries()[id]))
        &&& (forall|id1: usize, id2: usize|
            self.entries().dom().contains(id1) && self.entries().dom().contains(id2) && id1
                != id2 ==> #[trigger] self.entries()[id1] != #[trigger] self.entries()[id2])
        &&& (forall|i: int|
            0 <= i < self.free_pos@.len() ==> #[trigger] self.free_pos@[i] < self.max_capacity)
        &&& (forall|i: int, j: int|
            0 <= i < j < self.free_pos@.len() ==> self.free_pos@[i] != self.free_pos@[j])
        &&& (forall|i: int|
            0 <= i < self.free_pos@.len() ==> self.storage@[#[trigger] self.free_pos@[i] as int]
                is None)
    }

    fn _take_next_cur(&mut self) -> (spot: usize)
        ensures
            spot == old(self).cur,
            final(self).cur == wrap_next(old(self).cur),
            final(self).rev == if old(self).cur == usize::MAX {
                wrap_next(old(self).rev)
            } else {
                old(self).rev
            },
            final(self).inner == old(self).inner,
            final(self).storage == old(self).storage,
            final(self).free_pos == old(self).free_pos,
            final(self).count == old(self).count,
            final(self).max_capacity == old(self).max_capacity,
    {
        let spot = self.cur;
        if self.cur == usize::MAX {
            self.cur = 0;
            self.rev = if self.rev == usize::MAX {
                0
            } else {
                self.rev + 1
            };
        } else {
            self.cur = self.cur + 1;
        }
        spot
    }
}

impl<T> Slabbable<T> for NoHashSlab<T> {
    type Error = NoHashSlabError;

    closed spec fn taken(&self) -> Map<usize, T> {
        Map::new(
            |id: usize| self.entries().dom().contains(id)
                && self.storage@[self.entries()[id] as int] is Some,
            |id: usize| self.storage@[self.entries()[id] as int].unwrap(),
        )
    }

    closed spec fn reserved(&self) -> Set<usize> {
        Set::new(
            |id: usize| self.entries().dom().contains(id)
                && self.storage@[self.entries()[id] as int] is None,
        )
    }

    closed spec fn spec_capacity(&self) -> usize {
        self.max_capacity
    }

    closed spec fn wf(&self) -> bool {
        &&& self.wf_bookkeeping()
        &&& self.taken().dom().finite()
        &&& self.reserved().finite()
        &&& self.count == self.taken().dom().len() + self.reserved().len()
    }

    closed spec fn upcoming(&self) -> Option<usize> {
        Some(self.cur)
    }

    closed spec fn can_issue(&self) -> bool {
        !self.entries().dom().contains(self.cur)
    }

    open spec fn in_range(&self, idx: usize) -> bool {
        true
    }

    open spec fn at_capacity_err(cap: usize) -> NoHashSlabError {
        NoHashSlabError::AtCapacity(cap)
    }

    open spec fn invalid_index_err(idx: usize) -> NoHashSlabError {
        NoHashSlabError::InvalidIndex(idx)
    }

    open spec fn is_bug_err(e: NoHashSlabError) -> bool {
        e == NoHashSlabError::BugAlreadyOccupied
    }

    open spec fn supports_reap() -> bool {
        false
    }

    /// See trait
    proof fn lemma_can_issue(&self) {
    }

    /// See trait
    proof fn lemma_wf_model(&self) {
    }

    /// See trait
    fn with_fixed_capacity(cap: usize) -> (r: Result<Self, NoHashSlabError>)
        ensures
            r matches Ok(s) ==> s.upcoming() == Some(0usize),
    {
        let mut storage: Vec<Option<T>> = Vec::new();
        let mut free_pos: Vec<usize> = Vec::new();
        let mut i: usize = 0;
        while i < cap
            invariant
                i <= cap,
                storage@.len() == i,
                free_pos@.len() == i,
                forall|j: int| 0 <= j < i ==> storage@[j] is None,
                forall|j: int| 0 <= j < i ==> #[trigger] free_pos@[j] == j,
            decreases cap - i,
        {
            storage.push(None);
            free_pos.push(i);
            i = i + 1;
        }
        let slab = NoHashSlab {
            inner: id_map_new(cap),
            storage,
            free_pos,
            count: 0,
            max_capacity: cap,
            cur: 0,
            rev: 0,
        };
        proof {
            assert(slab.taken() =~= Map::<usize, T>::empty());
            assert(slab.reserved() =~= Set::<usize>::empty());
        }
        Ok(slab)
    }

    /// See trait
    fn reserve_next(&mut self) -> (r: Result<ReservedSlot, NoHashSlabError>)
        ensures
            old(self).upcoming() == Some(old(self).cursor()),
            r is Ok ==> final(self).upcoming() == Some(wrap_next(old(self).cursor())),
    {
        if self.count >= self.max_capacity {
            proof {
                assert(self.taken() =~= old(self).taken());
                assert(self.reserved() =~= old(self).reserved());
            }
            return Err(NoHashSlabError::AtCapacity(self.max_capacity));
        }
        let slot = self._take_next_cur();
        match id_map_get(&self.inner, slot) {
            Some(_) => {
                proof {
                    assert(self.taken() =~= old(self).taken());
                    assert(self.reserved() =~= old(self).reserved());
                }
                Err(NoHashSlabError::BugAlreadyOccupied)
            },
            None => {
                let pos = match self.free_pos.pop() {
                    Some(p) => p,
                    None => {
                        assert(false);
                        unreached()
                    },
                };
                let _ = id_map_insert(&mut self.inner, slot, pos);
                self.count = self.count + 1;
                proof {
                    assert(self.taken() =~= old(self).taken());
                    assert(self.reserved() =~= old(self).reserved().insert(slot));
                }
                Ok(ReservedSlot::issue(slot))
            },
        }
    }

    /// See trait
    fn take_reserved_with(&mut self, slot: ReservedSlot, with: T) -> (r: Result<
        usize,
        NoHashSlabError,
    >) {
        let id = slot.id();
        match id_map_get(&self.inner, id) {
            Some(pos) => {
                if self.storage[pos].is_some() {
                    proof {
                        assert(self.taken() =~= old(self).taken());
                        assert(self.reserved() =~= old(self).reserved());
                    }
                    Err(NoHashSlabError::InvalidIndex(id))
                } else {
                    self.storage[pos] = Some(with);
                    proof {
                        assert(self.taken() =~= old(self).taken().insert(id, with));
                        assert(self.reserved() =~= old(self).reserved().remove(id));
                    }
                    Ok(id)
                }
            },
            None => {
                proof {
                    assert(self.taken() =~= old(self).taken());
                    assert(self.reserved() =~= old(self).reserved());
                }
                Err(NoHashSlabError::InvalidIndex(id))
            },
        }
    }

    /// See trait
    fn take_next_with(&mut self, with: T) -> (r: Result<usize, NoHashSlabError>)
        ensures
            old(self).upcoming() == Some(old(self).cursor()),
            r is Ok ==> final(self).upcoming() == Some(wrap_next(old(self).cursor())),
    {
        if self.count >= self.max_capacity {
            proof {
                assert(self.taken() =~= old(self).taken());
                assert(self.reserved() =~= old(self).reserved());
            }
            return Err(NoHashSlabError::AtCapacity(self.max_capacity));
        }
        let slot = self._take_next_cur();
        match id_map_get(&self.inner, slot) {
            Some(_) => {
                proof {
                    assert(self.taken() =~= old(self).taken());
                    assert(self.reserved() =~= old(self).reserved());
                }
                Err(NoHashSlabError::BugAlreadyOccupied)
            },
            None => {
                let pos = match self.free_pos.pop() {
                    Some(p) => p,
                    None => {
                        assert(false);
                        unreached()
                    },
                };
                let _ = id_map_insert(&mut self.inner, slot, pos);
                self.storage[pos] = Some(with);
                self.count = self.count + 1;
                proof {
                    assert(self.taken() =~= old(self).taken().insert(slot, with));
                    assert(self.reserved() =~= old(self).reserved());
                }
                Ok(slot)
            },
        }
    }

    /// See trait
    fn mark_for_reuse(&mut self, slot: usize) -> (r: Result<T, NoHashSlabError>) {
        match id_map_get(&self.inner, slot) {
            Some(pos) => {
                let item = self.storage[pos].take();
                match item {
                    Some(item) => {
                        let _ = id_map_remove(&mut self.inner, slot);
                        self.free_pos.push(pos);
                        proof {
                            assert(old(self).taken().dom().contains(slot));
                            vstd::set_lib::lemma_len_subset(
                                Set::empty().insert(slot),
                                old(self).taken().dom(),
                            );
                        }
                        self.count = self.count - 1;
                        proof {
                            assert(self.taken() =~= old(self).taken().remove(slot));
                            assert(self.reserved() =~= old(self).reserved());
                        }
                        Ok(item)
                    },
                    None => {
                        proof {
                            assert(self.taken() =~= old(self).taken());
                            assert(self.reserved() =~= old(self).reserved());
                        }
                        Err(NoHashSlabError::InvalidIndex(slot))
                    },
                }
            },
            None => {
                proof {
                    assert(self.taken() =~= old(self).taken());
                    assert(self.reserved() =~= old(self).reserved());
                }
                Err(NoHashSlabError::InvalidIndex(slot))
            },
        }
    }

    /// See trait
    fn slot_get_ref(&self, slot: usize) -> (r: Result<Option<&T>, NoHashSlabError>) {
        match id_map_get(&self.inner, slot) {
            Some(pos) => match &self.storage[pos] {
                Some(item) => Ok(Some(item)),
                None => Ok(None),
            },
            None => Ok(None),
        }
    }

    /// See trait
    fn slot_get_mut(&mut self, slot: usize) -> (r: Result<Option<&mut T>, NoHashSlabError>) {
        broadcast use NoHashSlab::wf_structural;

        match id_map_get(&self.inner, slot) {
            Some(pos) => match &mut self.storage[pos] {
                Some(item) => Ok(Some(item)),
                None => Ok(None),
            },
            None => Ok(None),
        }
    }

    /// See trait
    fn capacity(&self) -> (r: usize) {
        self.max_capacity
    }

    /// See trait
    fn remaining(&self) -> (r: Option<usize>) {
        let rem = self.max_capacity - self.count;
        if rem == 0 {
            None
        } else {
            Some(rem)
        }
    }

    /// See trait
    fn reap(&mut self) -> (r: Option<usize>) {
        // Not supported by this backend.
        None
    }
}

} // verus!
