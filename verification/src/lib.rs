//! Fixed-capacity slot allocators ("slab-slotmaps") that keep every stored
//! item at a stable memory address while external code may hold raw
//! references to it.
//!
//! A backend is constructed once with a fixed capacity. Items are inserted
//! either directly (`take_next_with`) or through a two-phase
//! reserve-then-commit protocol (`reserve_next` / `take_reserved_with`), are
//! looked up by the small integer handle the insertion returned, and are
//! removed with `mark_for_reuse`. The number of simultaneously occupied and
//! reserved slots never exceeds the capacity, and a slot's backing storage is
//! never reallocated while the slot is live.
//!
//! Each backend's state is modelled by two ghost components: `taken`, the map
//! from issued indices to the items they hold, and `reserved`, the set of
//! indices set aside but not yet populated. Every operation's contract is
//! stated over that model.

use vstd::prelude::*;

mod error;
mod hash_backend;
mod id_map;
mod nohash_backend;
mod slab_backend;
mod report;
mod stable_vec_backend;
mod testable;

pub use error::SlabbableError;
pub use report::{fill_1m_basic, mem_cmp_to, Direction, MemReport, MemSnapshot, FILL_TARGET};
pub use testable::TestableSlab;
pub use hash_backend::HashSlab;
pub use nohash_backend::{NoHashSlab, NoHashSlabError};
pub use slab_backend::{SlabSlab, SlabSlabError};
pub use stable_vec_backend::{StableVecSlab, StableVecSlabError};

verus! {

/// Successor of a wrapping counter: one past `x`, or zero at the top.
pub open spec fn wrap_next(x: usize) -> usize {
    if x == usize::MAX {
        0
    } else {
        (x + 1) as usize
    }
}

/// A finite set of indices all below `n`, with fewer than `n` members,
/// misses at least one index below `n`.
pub(crate) proof fn lemma_small_set_misses_an_index(s: Set<usize>, n: usize)
    requires
        s.finite(),
        forall|k: usize| #[trigger] s.contains(k) ==> k < n,
        s.len() < n,
    ensures
        exists|j: usize| j < n && !s.contains(j),
    decreases n,
{
    let top = (n - 1) as usize;
    if !s.contains(top) {
        assert(top < n && !s.contains(top));
    } else {
        let smaller = s.remove(top);
        assert(forall|k: usize| #[trigger] smaller.contains(k) ==> k < top);
        lemma_small_set_misses_an_index(smaller, top);
        let j = choose|j: usize| j < top && !smaller.contains(j);
        assert(j < n && !s.contains(j));
    }
}

/// The contract every slab backend implements.
///
/// The model of a backend is the pair (`taken`, `reserved`): the occupied
/// slots with their items and the reserved-but-uncommitted slot indices.
/// `spec_capacity` is fixed at construction. `upcoming` names the index the
/// next issuance will hand out where the backend pre-determines it (the
/// cycling-cursor backends); `can_issue` is false exactly when the backend's
/// own bookkeeping would trip on the next issuance (a cursor that has cycled
/// back onto an index still in use), which is surfaced as a bug error, never
/// masked.
pub trait Slabbable<T>: Sized {
    /// Error type of this backend.
    type Error;

    /// Model: items currently stored, by slot index.
    spec fn taken(&self) -> Map<usize, T>;

    /// Model: slot indices reserved but not yet committed.
    spec fn reserved(&self) -> Set<usize>;

    /// The fixed capacity given at construction.
    spec fn spec_capacity(&self) -> usize;

    /// Internal well-formedness; established by construction and preserved
    /// by every operation.
    spec fn wf(&self) -> bool;

    /// The index the next issuance returns, where the backend determines it
    /// in advance (`None` for backends that derive indices positionally).
    spec fn upcoming(&self) -> Option<usize>;

    /// True unless the backend's next issuance would collide with an index
    /// still in use.
    spec fn can_issue(&self) -> bool;

    /// Indices that are structurally valid for `slot_get_ref`: lookups on
    /// them answer `Ok`, on others `Err`.
    spec fn in_range(&self, idx: usize) -> bool;

    /// The error reported when occupancy has reached the capacity.
    spec fn at_capacity_err(cap: usize) -> Self::Error;

    /// The error reported for a slot that is not currently occupied, or a
    /// reservation this instance does not recognize.
    spec fn invalid_index_err(idx: usize) -> Self::Error;

    /// True of the errors that report an internal bookkeeping contradiction.
    spec fn is_bug_err(e: Self::Error) -> bool;

    /// True if the backend has an opportunistic-compaction facility.
    spec fn supports_reap() -> bool;

    /// A backend can issue unless the index it would hand out next is still
    /// in use; backends that derive indices positionally can always issue.
    proof fn lemma_can_issue(&self)
        ensures
            self.can_issue() <==> match self.upcoming() {
                Some(id) => !self.taken().dom().contains(id) && !self.reserved().contains(id),
                None => true,
            },
    ;

    /// The model of a well-formed backend is finite, and the slots in use
    /// (occupied plus reserved) never exceed the fixed capacity.
    proof fn lemma_wf_model(&self)
        requires
            self.wf(),
        ensures
            self.taken().dom().finite(),
            self.reserved().finite(),
            self.taken().dom().len() + self.reserved().len() <= self.spec_capacity(),
    ;

    /// Allocates all backing storage upfront, sized for `cap` items; the
    /// capacity is final.
    fn with_fixed_capacity(cap: usize) -> (r: Result<Self, Self::Error>)
        ensures
            r is Ok,
            r matches Ok(s) ==> {
                &&& s.wf()
                &&& s.spec_capacity() == cap
                &&& s.taken() == Map::<usize, T>::empty()
                &&& s.reserved() == Set::<usize>::empty()
                &&& s.can_issue()
            },
    ;

    /// Claims the next slot index per the cycling policy without storing an
    /// item yet.
    fn reserve_next(&mut self) -> (r: Result<ReservedSlot, Self::Error>)
        requires
            old(self).wf(),
        ensures
            final(self).wf(),
            final(self).spec_capacity() == old(self).spec_capacity(),
            r is Ok <==> (old(self).taken().dom().len() + old(self).reserved().len() < old(self).spec_capacity()
                && old(self).can_issue()),
            match r {
                Ok(rs) => {
                    &&& !old(self).taken().dom().contains(rs.spec_id())
                    &&& !old(self).reserved().contains(rs.spec_id())
                    &&& (old(self).upcoming() matches Some(id) ==> rs.spec_id() == id)
                    &&& final(self).taken() == old(self).taken()
                    &&& final(self).reserved() == old(self).reserved().insert(rs.spec_id())
                },
                Err(e) => {
                    &&& final(self).taken() == old(self).taken()
                    &&& final(self).reserved() == old(self).reserved()
                    &&& if old(self).taken().dom().len() + old(self).reserved().len() >= old(self).spec_capacity() {
                        e == Self::at_capacity_err(old(self).spec_capacity())
                    } else {
                        Self::is_bug_err(e)
                    }
                },
            },
    ;

    /// Commits an item into a previously reserved slot. A reservation is
    /// honoured exactly once, and only by the instance that issued it.
    fn take_reserved_with(&mut self, slot: ReservedSlot, with: T) -> (r: Result<
        usize,
        Self::Error,
    >)
        requires
            old(self).wf(),
        ensures
            final(self).wf(),
            final(self).spec_capacity() == old(self).spec_capacity(),
            r is Ok <==> old(self).reserved().contains(slot.spec_id()),
            match r {
                Ok(idx) => {
                    &&& idx == slot.spec_id()
                    &&& final(self).taken() == old(self).taken().insert(idx, with)
                    &&& final(self).reserved() == old(self).reserved().remove(idx)
                },
                Err(e) => {
                    &&& e == Self::invalid_index_err(slot.spec_id())
                    &&& final(self).taken() == old(self).taken()
                    &&& final(self).reserved() == old(self).reserved()
                },
            },
    ;

    /// Reserve and commit in one call.
    fn take_next_with(&mut self, with: T) -> (r: Result<usize, Self::Error>)
        requires
            old(self).wf(),
        ensures
            final(self).wf(),
            final(self).spec_capacity() == old(self).spec_capacity(),
            r is Ok <==> (old(self).taken().dom().len() + old(self).reserved().len() < old(self).spec_capacity()
                && old(self).can_issue()),
            match r {
                Ok(idx) => {
                    &&& !old(self).taken().dom().contains(idx)
                    &&& !old(self).reserved().contains(idx)
                    &&& (old(self).upcoming() matches Some(id) ==> idx == id)
                    &&& final(self).taken() == old(self).taken().insert(idx, with)
                    &&& final(self).reserved() == old(self).reserved()
                },
                Err(e) => {
                    &&& final(self).taken() == old(self).taken()
                    &&& final(self).reserved() == old(self).reserved()
                    &&& if old(self).taken().dom().len() + old(self).reserved().len() >= old(self).spec_capacity() {
                        e == Self::at_capacity_err(old(self).spec_capacity())
                    } else {
                        Self::is_bug_err(e)
                    }
                },
            },
    ;

    /// Releases an occupied slot, returning its item by value; the index
    /// becomes eligible for reuse per the cycling policy.
    fn mark_for_reuse(&mut self, slot: usize) -> (r: Result<T, Self::Error>)
        requires
            old(self).wf(),
        ensures
            final(self).wf(),
            final(self).spec_capacity() == old(self).spec_capacity(),
            r is Ok <==> old(self).taken().dom().contains(slot),
            match r {
                Ok(item) => {
                    &&& item == old(self).taken()[slot]
                    &&& final(self).taken() == old(self).taken().remove(slot)
                    &&& final(self).reserved() == old(self).reserved()
                },
                Err(e) => {
                    &&& e == Self::invalid_index_err(slot)
                    &&& final(self).taken() == old(self).taken()
                    &&& final(self).reserved() == old(self).reserved()
                },
            },
    ;

    /// Reference to the item in an occupied slot; `Ok(None)` for an index
    /// that is structurally valid but unoccupied; an error only for indices
    /// outside the backend's valid range. Never stale data.
    fn slot_get_ref(&self, slot: usize) -> (r: Result<Option<&T>, Self::Error>)
        requires
            self.wf(),
        ensures
            match r {
                Ok(opt) => match opt {
                    Some(item) => self.taken().dom().contains(slot)
                        && *item == self.taken()[slot],
                    None => !self.taken().dom().contains(slot) && self.in_range(slot),
                },
                Err(e) => {
                    &&& e == Self::invalid_index_err(slot)
                    &&& !self.taken().dom().contains(slot)
                    &&& !self.in_range(slot)
                },
            },
    ;

    /// Mutable reference to the item in an occupied slot; `Ok(None)` for an
    /// index that is structurally valid but unoccupied; an error only for
    /// indices outside the backend's valid range. The model afterwards holds
    /// at that slot exactly the value the caller leaves behind.
    fn slot_get_mut(&mut self, slot: usize) -> (r: Result<Option<&mut T>, Self::Error>)
        requires
            old(self).wf(),
        ensures
            final(self).wf(),
            final(self).spec_capacity() == old(self).spec_capacity(),
            final(self).reserved() =~= old(self).reserved(),
            match r {
                Ok(opt) => match opt {
                    Some(item) => {
                        &&& old(self).taken().dom().contains(slot)
                        &&& *item == old(self).taken()[slot]
                        &&& final(self).taken() =~= old(self).taken().insert(slot, *final(item))
                    },
                    None => {
                        &&& !old(self).taken().dom().contains(slot)
                        &&& old(self).in_range(slot)
                        &&& final(self).taken() =~= old(self).taken()
                    },
                },
                Err(e) => {
                    &&& e == Self::invalid_index_err(slot)
                    &&& !old(self).taken().dom().contains(slot)
                    &&& !old(self).in_range(slot)
                    &&& final(self).taken() =~= old(self).taken()
                },
            },
    ;

    /// The fixed capacity.
    fn capacity(&self) -> (r: usize)
        ensures
            r == self.spec_capacity(),
    ;

    /// Free slots left: `None` at capacity, else the count.
    fn remaining(&self) -> (r: Option<usize>)
        requires
            self.wf(),
        ensures
            r == if self.taken().dom().len() + self.reserved().len() == self.spec_capacity() {
                None::<usize>
            } else {
                Some((self.spec_capacity() - (self.taken().dom().len()
                    + self.reserved().len())) as usize)
            },
    ;

    /// Opportunistic compaction of free-slot bookkeeping. Never touches the
    /// model: capacity, occupied items and reservations are all preserved.
    /// Backends without the facility return `None`.
    fn reap(&mut self) -> (r: Option<usize>)
        requires
            old(self).wf(),
        ensures
            final(self).wf(),
            final(self).spec_capacity() == old(self).spec_capacity(),
            final(self).taken() == old(self).taken(),
            final(self).reserved() == old(self).reserved(),
            !Self::supports_reap() ==> r is None,
    ;
}

/// Reserved marker for a slot that can be taken later. A capability issued
/// by a backend's `reserve_next`; not a completed write.
#[derive(Clone, Debug, PartialEq, Eq, Structural)]
pub struct ReservedSlot {
    taken: usize,
}

impl ReservedSlot {
    /// The reserved index, as the model sees it.
    pub closed spec fn spec_id(&self) -> usize {
        self.taken
    }

    /// Provide a new ReservedSlot.
    ///
    /// Intended for code implementing the `Slabbable` trait, not for code
    /// that consumes an implementation.
    pub fn issue(id: usize) -> (r: Self)
        ensures
            r.spec_id() == id,
    {
        Self { taken: id }
    }

    /// Id of the reserved slot, in case it is needed before taking the
    /// actual slot.
    pub fn id(&self) -> (r: usize)
        ensures
            r == self.spec_id(),
    {
        self.taken
    }
}

impl Default for ReservedSlot {
    /// A placeholder reservation for slot zero.
    fn default() -> (r: Self)
        ensures
            r.spec_id() == 0,
    {
        Self { taken: 0 }
    }
}

/// Address stability, at the model level: one insertion or release changes
/// the `taken` model only at its own index, so every other occupied slot
/// keeps exactly the item it had — the backing storage is never compacted
/// or reindexed under a live slot. The contracts of `take_next_with`,
/// `take_reserved_with` and `mark_for_reuse` give every post-state one of
/// the two shapes required here.
pub proof fn lemma_address_stability<T, S: Slabbable<T>>(
    pre: &S,
    post: &S,
    touched: usize,
    j: usize,
)
    requires
        post.taken() == pre.taken().insert(touched, post.taken()[touched]) || post.taken()
            == pre.taken().remove(touched),
        pre.taken().dom().contains(j),
        j != touched,
    ensures
        post.taken().dom().contains(j),
        post.taken()[j] == pre.taken()[j],
{
}

/// Reservation correctness: committing a reservation removes its id from
/// the reserved set, and `take_reserved_with` answers `Ok` exactly on ids
/// in that set — so the same reservation presented twice is rejected the
/// second time, and an instance that never issued it rejects it outright.
pub proof fn lemma_reservation_single_use<T, S: Slabbable<T>>(pre: &S, post: &S, rs: ReservedSlot)
    requires
        pre.reserved().contains(rs.spec_id()),
        post.reserved() == pre.reserved().remove(rs.spec_id()),
    ensures
        !post.reserved().contains(rs.spec_id()),
{
}

/// Round trip: after an insertion of `item` returns index `idx`, the model
/// maps `idx` to exactly `item`, and `slot_get_ref`'s contract then answers
/// `Ok(Some(&item))` on that index.
pub proof fn lemma_round_trip<T, S: Slabbable<T>>(pre: &S, post: &S, idx: usize, item: T)
    requires
        post.taken() == pre.taken().insert(idx, item),
    ensures
        post.taken().dom().contains(idx),
        post.taken()[idx] == item,
{
}

} // verus!
