//! Contract-level behaviour: round trips, reservation misuse, remaining
//! counts, index validity, the reservation token, and the memory-report
//! arithmetic.

use slabbable::{
    fill_1m_basic, mem_cmp_to, Direction, HashSlab, MemSnapshot, NoHashSlab, NoHashSlabError,
    ReservedSlot, Slabbable, SlabSlab, SlabSlabError, SlabbableError, StableVecSlab,
    StableVecSlabError, TestableSlab,
};

// Round trip: take_next_with(x) followed by slot_get_ref(index) reads x back.

fn round_trip<S: Slabbable<String>>(s: &mut S)
where
    <S as Slabbable<String>>::Error: std::fmt::Debug,
{
    let idx = s.take_next_with(String::from("hello slab")).unwrap();
    let got = s.slot_get_ref(idx).unwrap().unwrap();
    assert_eq!(got.as_str(), "hello slab");
    let idx2 = s.take_next_with(String::from("second")).unwrap();
    assert_eq!(s.slot_get_ref(idx2).unwrap().unwrap().as_str(), "second");
    assert_eq!(s.slot_get_ref(idx).unwrap().unwrap().as_str(), "hello slab");
}

#[test]
fn round_trip_all_backends() {
    round_trip(&mut TestableSlab::<String>::with_fixed_capacity(3).unwrap());
    round_trip(&mut SlabSlab::<String>::with_fixed_capacity(3).unwrap());
    round_trip(&mut StableVecSlab::<String>::with_fixed_capacity(3).unwrap());
    round_trip(&mut NoHashSlab::<String>::with_fixed_capacity(3).unwrap());
    round_trip(&mut HashSlab::<String>::with_fixed_capacity(3).unwrap());
}

// Releasing returns the stored item by value.

#[test]
fn release_returns_item() {
    let mut s = HashSlab::<String>::with_fixed_capacity(2).unwrap();
    let idx = s.take_next_with(String::from("kept alive")).unwrap();
    assert_eq!(s.mark_for_reuse(idx), Ok(String::from("kept alive")));
    assert_eq!(s.mark_for_reuse(idx), Err(SlabbableError::InvalidIndex(idx)));
}

// Reservation correctness: a reservation commits once; presented twice or
// to a different instance it is rejected.

#[test]
fn reservation_commits_once_testable() {
    let mut s = TestableSlab::<u64>::with_fixed_capacity(3).unwrap();
    let rs = s.reserve_next().unwrap();
    let id = rs.id();
    assert_eq!(s.take_reserved_with(rs.clone(), 5), Ok(id));
    assert_eq!(s.take_reserved_with(rs, 6), Err(SlabbableError::InvalidIndex(id)));
    assert_eq!(s.slot_get_ref(id).unwrap().unwrap(), &5);
}

#[test]
fn reservation_commits_once_hash() {
    let mut s = HashSlab::<u64>::with_fixed_capacity(3).unwrap();
    let rs = s.reserve_next().unwrap();
    let id = rs.id();
    assert_eq!(s.take_reserved_with(rs.clone(), 5), Ok(id));
    assert_eq!(s.take_reserved_with(rs, 6), Err(SlabbableError::InvalidIndex(id)));
}

#[test]
fn reservation_rejected_by_other_instance() {
    let mut a = TestableSlab::<u64>::with_fixed_capacity(3).unwrap();
    let mut b = TestableSlab::<u64>::with_fixed_capacity(3).unwrap();
    let rs = a.reserve_next().unwrap();
    assert_eq!(b.take_reserved_with(rs, 9), Err(SlabbableError::InvalidIndex(0)));
    let mut sb = SlabSlab::<u64>::with_fixed_capacity(3).unwrap();
    let mut sb2 = SlabSlab::<u64>::with_fixed_capacity(3).unwrap();
    let rs2 = sb.reserve_next().unwrap();
    assert_eq!(sb2.take_reserved_with(rs2, 9), Err(SlabSlabError::InvalidIndex(0)));
}

#[test]
fn reservation_counts_toward_capacity() {
    let mut s = StableVecSlab::<u64>::with_fixed_capacity(2).unwrap();
    let _r1 = s.reserve_next().unwrap();
    let _r2 = s.reserve_next().unwrap();
    assert_eq!(s.remaining(), None);
    assert_eq!(s.reserve_next(), Err(StableVecSlabError::AtCapacity(2)));
    assert_eq!(s.take_next_with(1), Err(StableVecSlabError::AtCapacity(2)));
}

// Capacity introspection: remaining is None exactly at full occupancy.

fn remaining_counts_down<S: Slabbable<u64>>(s: &mut S)
where
    <S as Slabbable<u64>>::Error: std::fmt::Debug,
{
    assert_eq!(s.capacity(), 2);
    assert_eq!(s.remaining(), Some(2));
    let a = s.take_next_with(1).unwrap();
    assert_eq!(s.remaining(), Some(1));
    let _b = s.take_next_with(2).unwrap();
    assert_eq!(s.remaining(), None);
    s.mark_for_reuse(a).unwrap();
    assert_eq!(s.remaining(), Some(1));
    assert_eq!(s.capacity(), 2);
}

#[test]
fn remaining_counts_down_all_backends() {
    remaining_counts_down(&mut TestableSlab::<u64>::with_fixed_capacity(2).unwrap());
    remaining_counts_down(&mut SlabSlab::<u64>::with_fixed_capacity(2).unwrap());
    remaining_counts_down(&mut StableVecSlab::<u64>::with_fixed_capacity(2).unwrap());
    remaining_counts_down(&mut NoHashSlab::<u64>::with_fixed_capacity(2).unwrap());
    remaining_counts_down(&mut HashSlab::<u64>::with_fixed_capacity(2).unwrap());
}

// Index validity: released and never-issued indices never read back as live
// items; the positional backends reject indices past the capacity.

#[test]
fn released_and_unknown_indices() {
    let mut t = TestableSlab::<u64>::with_fixed_capacity(3).unwrap();
    let idx = t.take_next_with(8).unwrap();
    t.mark_for_reuse(idx).unwrap();
    assert_eq!(t.slot_get_ref(idx), Ok(None));
    assert_eq!(t.slot_get_ref(4096), Ok(None));
    assert_eq!(t.mark_for_reuse(idx), Err(SlabbableError::InvalidIndex(idx)));

    let mut sl = SlabSlab::<u64>::with_fixed_capacity(3).unwrap();
    let k = sl.take_next_with(8).unwrap();
    sl.mark_for_reuse(k).unwrap();
    assert_eq!(sl.slot_get_ref(k), Ok(None));
    assert_eq!(sl.slot_get_ref(4096), Err(SlabSlabError::InvalidIndex(4096)));
    assert_eq!(sl.mark_for_reuse(4096), Err(SlabSlabError::InvalidIndex(4096)));

    let mut nh = NoHashSlab::<u64>::with_fixed_capacity(3).unwrap();
    let id = nh.take_next_with(8).unwrap();
    nh.mark_for_reuse(id).unwrap();
    assert_eq!(nh.slot_get_ref(id), Ok(None));
    assert_eq!(nh.mark_for_reuse(id), Err(NoHashSlabError::InvalidIndex(id)));

    let mut h = HashSlab::<u64>::with_fixed_capacity(3).unwrap();
    let hid = h.take_next_with(8).unwrap();
    h.mark_for_reuse(hid).unwrap();
    assert_eq!(h.slot_get_ref(hid), Err(SlabbableError::InvalidIndex(hid)));
}

// Ids under a cycling cursor ascend; positions freed earlier are not
// reissued as ids before the cursor returns to them.

#[test]
fn cursor_ids_ascend() {
    let mut s = NoHashSlab::<u64>::with_fixed_capacity(2).unwrap();
    let a = s.take_next_with(1).unwrap();
    assert_eq!(a, 0);
    s.mark_for_reuse(a).unwrap();
    let b = s.take_next_with(2).unwrap();
    assert_eq!(b, 1);
    let c = s.take_next_with(3).unwrap();
    assert_eq!(c, 2);
    assert_eq!(s.slot_get_ref(0), Ok(None));
}

// The reservation token itself.

#[test]
fn reserved_slot_token() {
    let rs = ReservedSlot::issue(7);
    assert_eq!(rs.id(), 7);
    let copy = rs.clone();
    assert_eq!(copy, rs);
    assert_eq!(ReservedSlot::default().id(), 0);
}

// The bulk fill stops with the backend's capacity error on a small slab.

#[test]
fn fill_stops_at_capacity() {
    let mut s = NoHashSlab::<u8>::with_fixed_capacity(3).unwrap();
    assert_eq!(fill_1m_basic(&mut s, 7u8), Err(NoHashSlabError::AtCapacity(3)));
    assert_eq!(s.remaining(), None);
    assert_eq!(s.slot_get_ref(1).unwrap().unwrap(), &7u8);
}

// Memory report arithmetic: exact movements per figure.

#[test]
fn mem_report_directions() {
    let was = MemSnapshot { phys: 100, virt: 200 };
    let grew = MemSnapshot { phys: 150, virt: 200 };
    let r = mem_cmp_to(&was, &grew);
    assert_eq!(r.phys, Direction::Increased(50));
    assert_eq!(r.virt, Direction::Same(200));

    let shrank = MemSnapshot { phys: 70, virt: 150 };
    let r2 = mem_cmp_to(&was, &shrank);
    assert_eq!(r2.phys, Direction::Reduced(30));
    assert_eq!(r2.virt, Direction::Reduced(50));
}

// In-place mutation: slot_get_mut writes through without moving the item.

fn mutate_in_place<S: Slabbable<u64>>(s: &mut S)
where
    <S as Slabbable<u64>>::Error: std::fmt::Debug,
{
    let a = s.take_next_with(10).unwrap();
    let b = s.take_next_with(20).unwrap();
    let addr_before = format!("{:p}", s.slot_get_ref(a).unwrap().unwrap());
    {
        let v = s.slot_get_mut(a).unwrap().unwrap();
        *v = 11;
    }
    assert_eq!(s.slot_get_ref(a).unwrap().unwrap(), &11);
    assert_eq!(s.slot_get_ref(b).unwrap().unwrap(), &20);
    assert_eq!(format!("{:p}", s.slot_get_ref(a).unwrap().unwrap()), addr_before);
}

#[test]
fn slot_get_mut_updates_in_place() {
    mutate_in_place(&mut TestableSlab::<u64>::with_fixed_capacity(3).unwrap());
    mutate_in_place(&mut SlabSlab::<u64>::with_fixed_capacity(3).unwrap());
    mutate_in_place(&mut StableVecSlab::<u64>::with_fixed_capacity(3).unwrap());
    mutate_in_place(&mut NoHashSlab::<u64>::with_fixed_capacity(3).unwrap());
    mutate_in_place(&mut HashSlab::<u64>::with_fixed_capacity(3).unwrap());
}

#[test]
fn slot_get_mut_on_unoccupied_slots() {
    let mut t = TestableSlab::<u64>::with_fixed_capacity(3).unwrap();
    assert!(matches!(t.slot_get_mut(9), Ok(None)));

    let mut h = HashSlab::<u64>::with_fixed_capacity(3).unwrap();
    assert_eq!(
        h.slot_get_mut(9).unwrap_err(),
        SlabbableError::InvalidIndex(9)
    );
    let rs = h.reserve_next().unwrap();
    let rid = rs.id();
    assert_eq!(
        h.slot_get_mut(rid).unwrap_err(),
        SlabbableError::InvalidIndex(rid)
    );

    let mut sl = SlabSlab::<u64>::with_fixed_capacity(3).unwrap();
    assert!(matches!(sl.slot_get_mut(1), Ok(None)));
    assert_eq!(
        sl.slot_get_mut(99).unwrap_err(),
        SlabSlabError::InvalidIndex(99)
    );
}

// A zero-capacity allocator is permanently full.

#[test]
fn zero_capacity_is_always_full() {
    let mut s = TestableSlab::<u64>::with_fixed_capacity(0).unwrap();
    assert_eq!(s.capacity(), 0);
    assert_eq!(s.remaining(), None);
    assert_eq!(s.take_next_with(1), Err(SlabbableError::AtCapacity(0)));
    assert!(s.reserve_next().is_err());

    let mut sv = StableVecSlab::<u64>::with_fixed_capacity(0).unwrap();
    assert_eq!(sv.take_next_with(1), Err(StableVecSlabError::AtCapacity(0)));
    let mut sl = SlabSlab::<u64>::with_fixed_capacity(0).unwrap();
    assert_eq!(sl.take_next_with(1), Err(SlabSlabError::AtCapacity(0)));
    let mut nh = NoHashSlab::<u64>::with_fixed_capacity(0).unwrap();
    assert_eq!(nh.take_next_with(1), Err(NoHashSlabError::AtCapacity(0)));
}

// Reserve-then-commit round trips on the positional backends.

#[test]
fn reserve_commit_round_trip_positional() {
    let mut sv = StableVecSlab::<u64>::with_fixed_capacity(3).unwrap();
    let rs = sv.reserve_next().unwrap();
    let id = rs.id();
    assert_eq!(sv.take_reserved_with(rs.clone(), 41), Ok(id));
    assert_eq!(sv.slot_get_ref(id).unwrap().unwrap(), &41);
    assert_eq!(sv.take_reserved_with(rs, 42), Err(StableVecSlabError::InvalidIndex(id)));
    assert_eq!(sv.slot_get_ref(id).unwrap().unwrap(), &41);

    let mut sl = SlabSlab::<u64>::with_fixed_capacity(3).unwrap();
    let rs = sl.reserve_next().unwrap();
    let id = rs.id();
    assert_eq!(sl.take_reserved_with(rs.clone(), 51), Ok(id));
    assert_eq!(sl.slot_get_ref(id).unwrap().unwrap(), &51);
    assert_eq!(sl.take_reserved_with(rs, 52), Err(SlabSlabError::InvalidIndex(id)));

    let mut nh = NoHashSlab::<u64>::with_fixed_capacity(3).unwrap();
    let rs = nh.reserve_next().unwrap();
    let id = rs.id();
    assert_eq!(nh.take_reserved_with(rs.clone(), 61), Ok(id));
    assert_eq!(nh.slot_get_ref(id).unwrap().unwrap(), &61);
    assert_eq!(nh.take_reserved_with(rs, 62), Err(NoHashSlabError::InvalidIndex(id)));
}
