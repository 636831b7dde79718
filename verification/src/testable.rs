//! Reference backend for validating the allocator contract.
//!
//! Not a performance implementation: two parallel arrays (item storage and
//! an index map) with plain linear scans, simple enough to serve as a
//! correctness oracle for the other backends. Ids come from the cycling
//! cursor; the position an item lands on is the first free one. A ghost map
//! from issued id to its position carries the linear-scan bookkeeping for
//! the verifier.

use vstd::prelude::*;
use vstd::pervasive::unreached;
use vstd::relations::injective_on;
use vstd::set_lib::lemma_map_size;

use crate::{wrap_next, ReservedSlot, Slabbable, SlabbableError};
use crate::lemma_small_set_misses_an_index;

verus! {

/// Reference backend holder.
pub struct TestableSlab<T> {
    // None = Vacant, Some(item) = Occupied; fixed length, never reallocated
    occupied: usize,
    inner: Vec<Option<T>>,
    idx: Vec<Option<usize>>,
    reserved: Vec<usize>,
    // (wrapping) Current index
    cur: usize,
    // (wrapping) Revolution
    rev: usize,
    // issued id -> position in `inner`/`idx`, for the verifier only
    slots: Ghost<Map<usize, int>>,
}

impl<T> TestableSlab<T> {
    /// Well-formedness reads only the shape of the item storage (which
    /// cells are filled), never the items' values.
    broadcast proof fn wf_structural(pre: Self, post: Self)
        requires
            #[trigger] pre.wf(),
            post.idx == pre.idx,
            post.reserved == pre.reserved,
            post.slots == pre.slots,
            post.occupied == pre.occupied,
            post.inner@.len() == pre.inner@.len(),
            forall|p: int|
                0 <= p < pre.inner@.len() ==> (pre.inner@[p] is Some <==> post.inner@[p]
                    is Some),
        ensures
            #[trigger] post.wf(),
    {
        assert(post.taken().dom() =~= pre.taken().dom());
        assert(post.reserved() =~= pre.reserved());
    }

    /// The cycling cursor: the id the next issuance hands out.
    pub closed spec fn cursor(&self) -> usize {
        self.cur
    }

    closed spec fn cap(&self) -> int {
        self.inner@.len() as int
    }

    closed spec fn wf_slots(&self) -> bool {
        &&& self.inner@.len() <= usize::MAX
        &&& self.inner@.len() == self.idx@.len()
        &&& self.slots@.dom().finite()
        &&& (forall|id: usize| #[trigger] self.slots@.dom().contains(id) ==> {
            &&& 0 <= self.slots@[id] < self.cap()
            &&& self.idx@[self.slots@[id]] == Some(id)
            &&& self.inner@[self.slots@[id]] is Some
        })
        &&& (forall|x: int|
            0 <= x < self.cap() && (#[trigger] self.idx@[x]) is Some ==> {
                &&& self.slots@.dom().contains(self.idx@[x].unwrap())
                &&& self.slots@[self.idx@[x].unwrap()] == x
            })
        &&& (forall|x: int|
            0 <= x < self.cap() ==> ((#[trigger] self.idx@[x]) is Some <==> self.inner@[x]
                is Some))
    }

    closed spec fn wf_bookkeeping(&self) -> bool {
        &&& self.wf_slots()
        &&& self.occupied <= self.inner@.len()
        &&& self.reserved@.no_duplicates()
        &&& (forall|i: int|
            0 <= i < self.reserved@.len() ==> !self.slots@.dom().contains(
                #[trigger] self.reserved@[i],
            ))
        &&& self.occupied == self.slots@.dom().len() + self.reserved@.len()
    }

    fn _take_next_cur(&mut self) -> (spot: usize)
        ensures
            spot == old(self).cur,
            final(self).cur == wrap_next(old(self).cur),
            final(self).rev == if old(self).cur == usize::MAX {
                wrap_next(old(self).rev)
            } else {
                old(self).rev
            },
            final(self).inner == old(self).inner,
            final(self).idx == old(self).idx,
            final(self).reserved == old(self).reserved,
            final(self).occupied == old(self).occupied,
            final(self).slots == old(self).slots,
    {
        let spot = self.cur;
        if self.cur == usize::MAX {
            self.cur = 0;
            self.rev = if self.rev == usize::MAX {
                0
            } else {
                self.rev + 1
            };
        } else {
            self.cur = self.cur + 1;
        }
        spot
    }

    fn _find(&self, slot: usize) -> (found: Option<usize>)
        requires
            self.wf_slots(),
        ensures
            match found {
                Some(x) => self.slots@.dom().contains(slot) && self.slots@[slot] == x as int,
                None => !self.slots@.dom().contains(slot),
            },
    {
        let n = self.idx.len();
        let mut x: usize = 0;
        while x < n
            invariant
                self.wf_slots(),
                n == self.idx@.len(),
                x <= n,
                forall|y: int| 0 <= y < x ==> self.idx@[y] != Some(slot),
            decreases n - x,
        {
            match self.idx[x] {
                Some(id) => {
                    if id == slot {
                        return Some(x);
                    }
                },
                None => {},
            }
            x = x + 1;
        }
        proof {
            if self.slots@.dom().contains(slot) {
                assert(self.idx@[self.slots@[slot]] == Some(slot));
            }
        }
        None
    }

    fn _reserved_contains(&self, id: usize) -> (b: bool)
        ensures
            b == self.reserved@.contains(id),
    {
        let n = self.reserved.len();
        let mut i: usize = 0;
        while i < n
            invariant
                n == self.reserved@.len(),
                i <= n,
                forall|j: int| 0 <= j < i ==> self.reserved@[j] != id,
            decreases n - i,
        {
            if self.reserved[i] == id {
                return true;
            }
            i = i + 1;
        }
        false
    }

    fn _reserved_index_of(&self, id: usize) -> (found: Option<usize>)
        ensures
            match found {
                Some(ri) => ri < self.reserved@.len() && self.reserved@[ri as int] == id,
                None => !self.reserved@.contains(id),
            },
    {
        let n = self.reserved.len();
        let mut i: usize = 0;
        while i < n
            invariant
                n == self.reserved@.len(),
                i <= n,
                forall|j: int| 0 <= j < i ==> self.reserved@[j] != id,
            decreases n - i,
        {
            if self.reserved[i] == id {
                return Some(i);
            }
            i = i + 1;
        }
        None
    }

    /// First vacant position; callable only while some position is vacant.
    fn _first_free_position(&self) -> (x: usize)
        requires
            self.wf_slots(),
            self.slots@.dom().len() < self.inner@.len(),
        ensures
            x < self.inner@.len(),
            self.inner@[x as int] is None,
            self.idx@[x as int] is None,
    {
        let n = self.inner.len();
        proof {
            assert(self.inner@.len() == n);
            let to_pos = |id: usize| self.slots@[id] as usize;
            let filled = self.slots@.dom().map(to_pos);
            assert(injective_on(to_pos, self.slots@.dom())) by {
                assert forall|a1: usize, a2: usize|
                    self.slots@.dom().contains(a1) && self.slots@.dom().contains(a2) && #[trigger] to_pos(a1)
                        == #[trigger] to_pos(a2) implies a1 == a2 by {
                    assert(0 <= self.slots@[a1] < self.cap());
                    assert(0 <= self.slots@[a2] < self.cap());
                    assert(self.slots@[a1] == self.slots@[a2]);
                    assert(self.idx@[self.slots@[a1]] == Some(a1));
                    assert(self.idx@[self.slots@[a2]] == Some(a2));
                }
            }
            lemma_map_size(self.slots@.dom(), filled, to_pos);
            assert forall|k: usize| #[trigger] filled.contains(k) implies k
                < self.inner@.len() by {
                let id = choose|id: usize| self.slots@.dom().contains(id) && k == to_pos(id);
                assert(self.slots@.dom().contains(id) && k == to_pos(id));
                assert(0 <= self.slots@[id] < self.cap());
            }
            lemma_small_set_misses_an_index(filled, n);
            let j = choose|j: usize| j < self.inner@.len() && !filled.contains(j);
            assert(self.inner@[j as int] is None) by {
                if self.idx@[j as int] is Some {
                    let id = self.idx@[j as int].unwrap();
                    assert(self.slots@.dom().contains(id) && self.slots@[id] == j as int);
                    assert(filled.contains(to_pos(id)));
                }
            }
        }
        let mut x: usize = 0;
        while x < n
            invariant
                self.wf_slots(),
                n == self.inner@.len(),
                x <= n,
                forall|y: int| 0 <= y < x ==> self.inner@[y] is Some,
                exists|j: int| 0 <= j < n && self.inner@[j] is None,
            decreases n - x,
        {
            if self.inner[x].is_none() {
                return x;
            }
            x = x + 1;
        }
        proof {
            assert(false);
        }
        unreached()
    }
}

impl<T> Slabbable<T> for TestableSlab<T> {
    type Error = SlabbableError;

    closed spec fn taken(&self) -> Map<usize, T> {
        Map::new(
            |id: usize| self.slots@.dom().contains(id),
            |id: usize| self.inner@[self.slots@[id]].unwrap(),
        )
    }

    closed spec fn reserved(&self) -> Set<usize> {
        Set::new(|id: usize| self.reserved@.contains(id))
    }

    closed spec fn spec_capacity(&self) -> usize {
        self.inner@.len() as usize
    }

    closed spec fn wf(&self) -> bool {
        &&& self.wf_bookkeeping()
        &&& self.taken().dom().finite()
        &&& self.reserved().finite()
        &&& self.occupied == self.taken().dom().len() + self.reserved().len()
    }

    closed spec fn upcoming(&self) -> Option<usize> {
        Some(self.cur)
    }

    closed spec fn can_issue(&self) -> bool {
        !self.slots@.dom().contains(self.cur) && !self.reserved@.contains(self.cur)
    }

    open spec fn in_range(&self, idx: usize) -> bool {
        true
    }

    open spec fn at_capacity_err(cap: usize) -> SlabbableError {
        SlabbableError::AtCapacity(cap)
    }

    open spec fn invalid_index_err(idx: usize) -> SlabbableError {
        SlabbableError::InvalidIndex(idx)
    }

    open spec fn is_bug_err(e: SlabbableError) -> bool {
        e matches SlabbableError::Bug(_)
    }

    open spec fn supports_reap() -> bool {
        false
    }

    /// See trait
    proof fn lemma_can_issue(&self) {
    }

    /// See trait
    proof fn lemma_wf_model(&self) {
    }

    /// See trait
    fn with_fixed_capacity(cap: usize) -> (r: Result<Self, SlabbableError>)
        ensures
            r matches Ok(s) ==> s.upcoming() == Some(0usize),
    {
        let mut inner: Vec<Option<T>> = Vec::new();
        let mut idx: Vec<Option<usize>> = Vec::new();
        let mut i: usize = 0;
        while i < cap
            invariant
                i <= cap,
                inner@.len() == i,
                idx@.len() == i,
                forall|j: int| 0 <= j < i ==> inner@[j] is None,
                forall|j: int| 0 <= j < i ==> idx@[j] is None,
            decreases cap - i,
        {
            inner.push(None);
            idx.push(None);
            i = i + 1;
        }
        let slab = TestableSlab {
            occupied: 0,
            inner,
            idx,
            reserved: Vec::new(),
            cur: 0,
            rev: 0,
            slots: Ghost(Map::<usize, int>::empty()),
        };
        proof {
            assert(slab.taken() =~= Map::<usize, T>::empty());
            assert(slab.reserved() =~= Set::<usize>::empty());
        }
        Ok(slab)
    }

    /// See trait
    fn reserve_next(&mut self) -> (r: Result<ReservedSlot, SlabbableError>)
        ensures
            old(self).upcoming() == Some(old(self).cursor()),
            r is Ok ==> final(self).upcoming() == Some(wrap_next(old(self).cursor())),
    {
        let cap = self.inner.len();
        if self.occupied >= cap {
            proof {
                assert(self.taken() =~= old(self).taken());
                assert(self.reserved() =~= old(self).reserved());
            }
            return Err(SlabbableError::AtCapacity(cap));
        }
        let id = self._take_next_cur();
        let in_taken = self._find(id);
        if in_taken.is_some() || self._reserved_contains(id) {
            proof {
                assert(self.taken() =~= old(self).taken());
                assert(self.reserved() =~= old(self).reserved());
            }
            return Err(SlabbableError::Bug("Next entry by the issuance cursor is already in use."));
        }
        self.occupied = self.occupied + 1;
        self.reserved.push(id);
        proof {
            let rold = old(self).reserved@;
            let rnew = self.reserved@;
            assert(rnew == rold.push(id));
            assert forall|id2: usize| #[trigger] rnew.contains(id2) implies (rold.contains(id2)
                || id2 == id) by {
                let j = choose|j: int| 0 <= j < rnew.len() && rnew[j] == id2;
                if j < rold.len() {
                    assert(rold[j] == id2);
                }
            }
            assert forall|id2: usize| #[trigger] rold.contains(id2) implies rnew.contains(
                id2,
            ) by {
                let j = choose|j: int| 0 <= j < rold.len() && rold[j] == id2;
                assert(rnew[j] == id2);
            }
            assert(rnew[rold.len() as int] == id);
            assert(rnew.contains(id));
            assert(self.taken() =~= old(self).taken());
            assert(self.reserved() =~= old(self).reserved().insert(id));
            assert(rnew.no_duplicates()) by {
                assert forall|i: int, j: int|
                    0 <= i < rnew.len() && 0 <= j < rnew.len() && i != j implies rnew[i]
                        != rnew[j] by {
                    if i < rold.len() && j < rold.len() {
                        assert(rold[i] != rold[j]);
                    } else if i < rold.len() {
                        assert(rnew[j] == id && rold[i] != id) by {
                            if rold[i] == id {
                                assert(rold.contains(id));
                            }
                        }
                    } else {
                        assert(rnew[i] == id && rold[j] != id) by {
                            if rold[j] == id {
                                assert(rold.contains(id));
                            }
                        }
                    }
                }
            }
        }
        Ok(ReservedSlot::issue(id))
    }

    /// See trait
    fn take_reserved_with(&mut self, slot: ReservedSlot, with: T) -> (r: Result<
        usize,
        SlabbableError,
    >) {
        let id = slot.id();
        let found = self._reserved_index_of(id);
        let ri = match found {
            Some(ri) => ri,
            None => {
                proof {
                    assert(self.taken() =~= old(self).taken());
                    assert(self.reserved() =~= old(self).reserved());
                }
                return Err(SlabbableError::InvalidIndex(id));
            },
        };
        // the reservation is known: commit the item into the first free position
        proof {
            assert(old(self).reserved@.contains(id));
            assert(self.slots@.dom().len() < self.inner@.len()) by {
                assert(old(self).reserved@.len() >= 1);
            }
        }
        let x = self._first_free_position();
        let _ = self.reserved.remove(ri);
        self.inner[x] = Some(with);
        self.idx[x] = Some(id);
        self.slots = Ghost(self.slots@.insert(id, x as int));
        proof {
            let rold = old(self).reserved@;
            let rnew = self.reserved@;
            rold.remove_ensures(ri as int);
            assert(rnew == rold.remove(ri as int));
            assert forall|id2: usize| #[trigger] rnew.contains(id2) implies (rold.contains(id2)
                && id2 != id) by {
                let j = choose|j: int| 0 <= j < rnew.len() && rnew[j] == id2;
                if j < ri {
                    assert(rold[j] == id2);
                    assert(rold[j] != rold[ri as int]);
                } else {
                    assert(rold[j + 1] == id2);
                    assert(rold[j + 1] != rold[ri as int]);
                }
            }
            assert forall|id2: usize| rold.contains(id2) && id2 != id implies #[trigger] rnew.contains(
                id2,
            ) by {
                let j = choose|j: int| 0 <= j < rold.len() && rold[j] == id2;
                assert(j != ri);
                if j < ri {
                    assert(rnew[j] == id2);
                } else {
                    assert(rnew[j - 1] == id2);
                }
            }
            assert(rnew.no_duplicates()) by {
                assert forall|i: int, j: int|
                    0 <= i < rnew.len() && 0 <= j < rnew.len() && i != j implies rnew[i]
                        != rnew[j] by {
                    let oi: int = if i < ri { i } else { i + 1 };
                    let oj: int = if j < ri { j } else { j + 1 };
                    assert(rnew[i] == rold[oi]);
                    assert(rnew[j] == rold[oj]);
                    assert(rold[oi] != rold[oj]);
                }
            }
            assert(self.taken() =~= old(self).taken().insert(id, with));
            assert(self.reserved() =~= old(self).reserved().remove(id));
        }
        Ok(id)
    }

    /// See trait - simple non-optimised linear search
    fn take_next_with(&mut self, with: T) -> (r: Result<usize, SlabbableError>)
        ensures
            old(self).upcoming() == Some(old(self).cursor()),
            r is Ok ==> final(self).upcoming() == Some(wrap_next(old(self).cursor())),
    {
        let cap = self.inner.len();
        if self.occupied >= cap {
            proof {
                assert(self.taken() =~= old(self).taken());
                assert(self.reserved() =~= old(self).reserved());
            }
            return Err(SlabbableError::AtCapacity(cap));
        }
        let id = self._take_next_cur();
        let in_taken = self._find(id);
        if in_taken.is_some() || self._reserved_contains(id) {
            proof {
                assert(self.taken() =~= old(self).taken());
                assert(self.reserved() =~= old(self).reserved());
            }
            return Err(SlabbableError::Bug("Next entry by the issuance cursor is already in use."));
        }
        let x = self._first_free_position();
        self.inner[x] = Some(with);
        self.idx[x] = Some(id);
        self.occupied = self.occupied + 1;
        self.slots = Ghost(self.slots@.insert(id, x as int));
        proof {
            assert(self.taken() =~= old(self).taken().insert(id, with));
            assert(self.reserved() =~= old(self).reserved());
        }
        Ok(id)
    }

    /// See trait
    fn mark_for_reuse(&mut self, slot: usize) -> (r: Result<T, SlabbableError>) {
        match self._find(slot) {
            Some(x) => {
                let item = self.inner[x].take();
                match item {
                    Some(item) => {
                        self.idx[x] = None;
                        self.slots = Ghost(self.slots@.remove(slot));
                        proof {
                            assert(old(self).taken().dom().contains(slot));
                            vstd::set_lib::lemma_len_subset(
                                Set::empty().insert(slot),
                                old(self).taken().dom(),
                            );
                        }
                        self.occupied = self.occupied - 1;
                        proof {
                            assert(self.taken() =~= old(self).taken().remove(slot));
                            assert(self.reserved() =~= old(self).reserved());
                        }
                        Ok(item)
                    },
                    None => {
                        proof {
                            assert(false);
                        }
                        unreached()
                    },
                }
            },
            None => {
                proof {
                    assert(self.taken() =~= old(self).taken());
                    assert(self.reserved() =~= old(self).reserved());
                }
                Err(SlabbableError::InvalidIndex(slot))
            },
        }
    }

    /// See trait
    fn slot_get_ref(&self, slot: usize) -> (r: Result<Option<&T>, SlabbableError>) {
        match self._find(slot) {
            Some(x) => match &self.inner[x] {
                Some(item) => Ok(Some(item)),
                None => {
                    proof {
                        assert(false);
                    }
                    unreached()
                },
            },
            None => Ok(None),
        }
    }

    /// See trait
    fn slot_get_mut(&mut self, slot: usize) -> (r: Result<Option<&mut T>, SlabbableError>) {
        broadcast use TestableSlab::wf_structural;

        match self._find(slot) {
            Some(x) => match &mut self.inner[x] {
                Some(item) => Ok(Some(item)),
                None => {
                    proof {
                        assert(false);
                    }
                    unreached()
                },
            },
            None => Ok(None),
        }
    }

    /// See trait
    fn capacity(&self) -> (r: usize) {
        self.inner.len()
    }

    /// See trait
    fn remaining(&self) -> (r: Option<usize>) {
        let rem = self.inner.len() - self.occupied;
        if rem == 0 {
            None
        } else {
            Some(rem)
        }
    }

    /// See trait
    fn reap(&mut self) -> (r: Option<usize>) {
        // Not supported by this backend.
        None
    }
}

} // verus!
