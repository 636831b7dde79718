//! Memory-usage comparison and a bulk-fill workload.
//!
//! The figures themselves come from the process's environment and are read
//! by the caller; this module only compares two snapshots and drives a
//! backend-agnostic fill, so both are stated and proved exactly.

use vstd::prelude::*;

use crate::Slabbable;

verus! {

/// How many items the bulk-fill workload stores.
pub const FILL_TARGET: usize = 10_024_000;

/// A snapshot of the process's memory use, in bytes.
pub struct MemSnapshot {
    /// Physical memory in use.
    pub phys: usize,
    /// Virtual memory in use.
    pub virt: usize,
}

/// How one memory figure moved between two snapshots, with the difference
/// (or, unchanged, the figure itself).
#[derive(Debug, PartialEq, Eq, Structural)]
pub enum Direction {
    /// The figure shrank by this many bytes.
    Reduced(usize),
    /// The figure grew by this many bytes.
    Increased(usize),
    /// The figure stayed at this value.
    Same(usize),
}

/// Movement of both memory figures between two snapshots.
pub struct MemReport {
    /// Physical memory movement.
    pub phys: Direction,
    /// Virtual memory movement.
    pub virt: Direction,
}

/// The movement from `was` to `cur` of one figure.
pub open spec fn spec_direction(was: usize, cur: usize) -> Direction {
    if cur > was {
        Direction::Increased((cur - was) as usize)
    } else if cur == was {
        Direction::Same(cur)
    } else {
        Direction::Reduced((was - cur) as usize)
    }
}

/// Compares a current snapshot against an earlier baseline, figure by
/// figure.
pub fn mem_cmp_to(was: &MemSnapshot, cur: &MemSnapshot) -> (r: MemReport)
    ensures
        r.phys == spec_direction(was.phys, cur.phys),
        r.virt == spec_direction(was.virt, cur.virt),
{
    let phys = if cur.phys > was.phys {
        Direction::Increased(cur.phys - was.phys)
    } else if cur.phys == was.phys {
        Direction::Same(cur.phys)
    } else {
        Direction::Reduced(was.phys - cur.phys)
    };

    let virt = if cur.virt > was.virt {
        Direction::Increased(cur.virt - was.virt)
    } else if cur.virt == was.virt {
        Direction::Same(cur.virt)
    } else {
        Direction::Reduced(was.virt - cur.virt)
    };

    MemReport { phys, virt }
}

/// Fills `FILL_TARGET` slots of a backend with copies of one item, for
/// ramp-up measurement; stops at the backend's first refusal.
pub fn fill_1m_basic<T: Clone, S: Slabbable<T>>(slab: &mut S, with: T) -> (r: Result<
    (),
    S::Error,
>)
    requires
        old(slab).wf(),
    ensures
        final(slab).wf(),
        final(slab).spec_capacity() == old(slab).spec_capacity(),
        r is Ok ==> {
            &&& final(slab).taken().dom().len() == old(slab).taken().dom().len() + FILL_TARGET
            &&& final(slab).reserved() == old(slab).reserved()
        },
{
    let mut i: usize = 0;
    while i < FILL_TARGET
        invariant
            slab.wf(),
            slab.spec_capacity() == old(slab).spec_capacity(),
            i <= FILL_TARGET,
            slab.taken().dom().len() == old(slab).taken().dom().len() + i,
            slab.reserved() == old(slab).reserved(),
        decreases FILL_TARGET - i,
    {
        proof {
            slab.lemma_wf_model();
        }
        match slab.take_next_with(with.clone()) {
            Ok(_) => {},
            Err(e) => {
                return Err(e);
            },
        }
        i = i + 1;
    }
    Ok(())
}

} // verus!
