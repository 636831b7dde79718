//! Concrete end-to-end scenarios, run against every backend.

use slabbable::{
    HashSlab, NoHashSlab, Slabbable, SlabSlab, SlabSlabError, SlabbableError, StableVecSlab,
    StableVecSlabError, TestableSlab,
};
use slabbable::NoHashSlabError;

fn addr_of_slot<S: Slabbable<u64>>(s: &S, idx: usize) -> String
where
    <S as Slabbable<u64>>::Error: std::fmt::Debug,
{
    format!("{:p}", s.slot_get_ref(idx).unwrap().unwrap())
}

// Scenario: capacity 5, five inserts succeed, the sixth reports AtCapacity(5).

#[test]
fn sixth_insert_at_capacity_testable() {
    let mut s = TestableSlab::<u64>::with_fixed_capacity(5).unwrap();
    for v in 0..5u64 {
        s.take_next_with(v).unwrap();
    }
    assert_eq!(s.take_next_with(99), Err(SlabbableError::AtCapacity(5)));
}

#[test]
fn sixth_insert_at_capacity_slab() {
    let mut s = SlabSlab::<u64>::with_fixed_capacity(5).unwrap();
    for v in 0..5u64 {
        s.take_next_with(v).unwrap();
    }
    assert_eq!(s.take_next_with(99), Err(SlabSlabError::AtCapacity(5)));
}

#[test]
fn sixth_insert_at_capacity_stable_vec() {
    let mut s = StableVecSlab::<u64>::with_fixed_capacity(5).unwrap();
    for v in 0..5u64 {
        s.take_next_with(v).unwrap();
    }
    assert_eq!(s.take_next_with(99), Err(StableVecSlabError::AtCapacity(5)));
}

#[test]
fn sixth_insert_at_capacity_nohash() {
    let mut s = NoHashSlab::<u64>::with_fixed_capacity(5).unwrap();
    for v in 0..5u64 {
        s.take_next_with(v).unwrap();
    }
    assert_eq!(s.take_next_with(99), Err(NoHashSlabError::AtCapacity(5)));
}

#[test]
fn sixth_insert_at_capacity_hash() {
    let mut s = HashSlab::<u64>::with_fixed_capacity(5).unwrap();
    for v in 0..5u64 {
        s.take_next_with(v).unwrap();
    }
    assert_eq!(s.take_next_with(99), Err(SlabbableError::AtCapacity(5)));
}

// Scenario: release one of five slots; the next insert reuses the released
// slot's storage (same address), and the other four addresses are unchanged.

fn released_slot_storage_is_reused<S: Slabbable<u64>>(s: &mut S)
where
    <S as Slabbable<u64>>::Error: std::fmt::Debug,
{
    let mut slots = Vec::new();
    let mut addrs = Vec::new();
    for v in 0..5u64 {
        let idx = s.take_next_with(v).unwrap();
        slots.push(idx);
        addrs.push(addr_of_slot(s, idx));
    }
    let released = slots[2];
    let released_addr = addrs[2].clone();
    s.mark_for_reuse(released).unwrap();
    let new_idx = s.take_next_with(77).unwrap();
    assert_eq!(addr_of_slot(s, new_idx), released_addr);
    for (i, idx) in slots.iter().enumerate() {
        if i != 2 {
            assert_eq!(addr_of_slot(s, *idx), addrs[i]);
        }
    }
}

#[test]
fn slot_reuse_testable() {
    let mut s = TestableSlab::<u64>::with_fixed_capacity(5).unwrap();
    released_slot_storage_is_reused(&mut s);
}

#[test]
fn slot_reuse_slab() {
    let mut s = SlabSlab::<u64>::with_fixed_capacity(5).unwrap();
    released_slot_storage_is_reused(&mut s);
}

#[test]
fn slot_reuse_stable_vec() {
    let mut s = StableVecSlab::<u64>::with_fixed_capacity(5).unwrap();
    released_slot_storage_is_reused(&mut s);
}

#[test]
fn slot_reuse_nohash() {
    let mut s = NoHashSlab::<u64>::with_fixed_capacity(5).unwrap();
    released_slot_storage_is_reused(&mut s);
}

#[test]
fn slot_reuse_hash() {
    let mut s = HashSlab::<u64>::with_fixed_capacity(5).unwrap();
    released_slot_storage_is_reused(&mut s);
}

// Scenario: a reserved, uncommitted slot never reads back as a live item.

#[test]
fn reserved_slot_is_not_live_testable() {
    let mut s = TestableSlab::<u64>::with_fixed_capacity(5).unwrap();
    let rs = s.reserve_next().unwrap();
    assert_eq!(s.slot_get_ref(rs.id()), Ok(None));
}

#[test]
fn reserved_slot_is_not_live_slab() {
    let mut s = SlabSlab::<u64>::with_fixed_capacity(5).unwrap();
    let rs = s.reserve_next().unwrap();
    assert_eq!(s.slot_get_ref(rs.id()), Ok(None));
}

#[test]
fn reserved_slot_is_not_live_stable_vec() {
    let mut s = StableVecSlab::<u64>::with_fixed_capacity(5).unwrap();
    let rs = s.reserve_next().unwrap();
    assert_eq!(s.slot_get_ref(rs.id()), Ok(None));
}

#[test]
fn reserved_slot_is_not_live_nohash() {
    let mut s = NoHashSlab::<u64>::with_fixed_capacity(5).unwrap();
    let rs = s.reserve_next().unwrap();
    assert_eq!(s.slot_get_ref(rs.id()), Ok(None));
}

#[test]
fn reserved_slot_is_not_live_hash() {
    let mut s = HashSlab::<u64>::with_fixed_capacity(5).unwrap();
    let rs = s.reserve_next().unwrap();
    assert_eq!(s.slot_get_ref(rs.id()), Err(SlabbableError::InvalidIndex(rs.id())));
}

// Scenario: release all five slots, insert five new items; the new indices
// are pairwise distinct, and under a cycling cursor also fresh.

fn five_new_indices_distinct<S: Slabbable<u64>>(s: &mut S, expect_fresh: bool)
where
    <S as Slabbable<u64>>::Error: std::fmt::Debug,
{
    let mut old_slots = Vec::new();
    for v in 0..5u64 {
        old_slots.push(s.take_next_with(v).unwrap());
    }
    for idx in &old_slots {
        s.mark_for_reuse(*idx).unwrap();
    }
    let mut new_slots = Vec::new();
    for v in 10..15u64 {
        new_slots.push(s.take_next_with(v).unwrap());
    }
    for i in 0..new_slots.len() {
        for j in 0..new_slots.len() {
            if i != j {
                assert_ne!(new_slots[i], new_slots[j]);
            }
        }
        if expect_fresh {
            assert!(!old_slots.contains(&new_slots[i]));
        }
    }
}

#[test]
fn fresh_indices_after_release_testable() {
    let mut s = TestableSlab::<u64>::with_fixed_capacity(5).unwrap();
    five_new_indices_distinct(&mut s, true);
}

#[test]
fn fresh_indices_after_release_nohash() {
    let mut s = NoHashSlab::<u64>::with_fixed_capacity(5).unwrap();
    five_new_indices_distinct(&mut s, true);
}

#[test]
fn fresh_indices_after_release_hash() {
    let mut s = HashSlab::<u64>::with_fixed_capacity(5).unwrap();
    five_new_indices_distinct(&mut s, true);
}

#[test]
fn distinct_indices_after_release_slab() {
    let mut s = SlabSlab::<u64>::with_fixed_capacity(5).unwrap();
    five_new_indices_distinct(&mut s, false);
}

#[test]
fn distinct_indices_after_release_stable_vec() {
    let mut s = StableVecSlab::<u64>::with_fixed_capacity(5).unwrap();
    five_new_indices_distinct(&mut s, false);
}

// Scenario: reap on a backend without compaction support answers None and
// leaves the capacity untouched.

#[test]
fn reap_unsupported_answers_none() {
    let mut t = TestableSlab::<u64>::with_fixed_capacity(4).unwrap();
    let mut sl = SlabSlab::<u64>::with_fixed_capacity(4).unwrap();
    let mut sv = StableVecSlab::<u64>::with_fixed_capacity(4).unwrap();
    let mut nh = NoHashSlab::<u64>::with_fixed_capacity(4).unwrap();
    let mut h = HashSlab::<u64>::with_fixed_capacity(4).unwrap();
    for v in 0..2u64 {
        t.take_next_with(v).unwrap();
        sl.take_next_with(v).unwrap();
        sv.take_next_with(v).unwrap();
        nh.take_next_with(v).unwrap();
        h.take_next_with(v).unwrap();
    }
    t.mark_for_reuse(0).unwrap();
    assert_eq!(t.reap(), None);
    assert_eq!(t.capacity(), 4);
    assert_eq!(sl.reap(), None);
    assert_eq!(sl.capacity(), 4);
    assert_eq!(sv.reap(), None);
    assert_eq!(sv.capacity(), 4);
    assert_eq!(nh.reap(), None);
    assert_eq!(nh.capacity(), 4);
    assert_eq!(h.reap(), None);
    assert_eq!(h.capacity(), 4);
}
