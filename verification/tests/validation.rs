//! Address-stability validation across every backend: fill a slab, note
//! each occupant's address, and check that every address is unchanged
//! afterwards.

use slabbable::{HashSlab, NoHashSlab, Slabbable, SlabSlab, StableVecSlab, TestableSlab};

#[derive(Debug, Clone)]
struct SomeCStruct {
    forever: u8,
    whatever: u16,
    yet_another: u32,
}

fn sample() -> SomeCStruct {
    SomeCStruct { forever: 0, whatever: 0, yet_another: 0 }
}

fn check_stable_memory<S: Slabbable<SomeCStruct>>(impl_ut: &mut S, cap: usize)
where
    <S as Slabbable<SomeCStruct>>::Error: std::fmt::Debug,
{
    let mut ptrs_chk = Vec::with_capacity(cap);
    for _z in 0..cap {
        let slot = impl_ut.take_next_with(sample()).unwrap();
        let g = impl_ut.slot_get_ref(slot).unwrap().unwrap();
        let ptr = format!("{:p}", g);
        ptrs_chk.push((slot, ptr));
    }

    for (slot, ptr) in ptrs_chk {
        let chk = impl_ut.slot_get_ref(slot).unwrap().unwrap();
        let chk_ptr = format!("{:p}", chk);
        assert_eq!(ptr, chk_ptr);
    }
}

#[test]
fn stable_vec() {
    let mut imp = StableVecSlab::<SomeCStruct>::with_fixed_capacity(5).unwrap();
    check_stable_memory(&mut imp, 5)
}

#[test]
fn lib_slab() {
    let mut imp = SlabSlab::<SomeCStruct>::with_fixed_capacity(5).unwrap();
    check_stable_memory(&mut imp, 5)
}

#[test]
fn slab() {
    let mut imp = NoHashSlab::<SomeCStruct>::with_fixed_capacity(5).unwrap();
    check_stable_memory(&mut imp, 5)
}

#[test]
fn hash() {
    let mut imp = HashSlab::<SomeCStruct>::with_fixed_capacity(5).unwrap();
    check_stable_memory(&mut imp, 5)
}

#[test]
fn testable_reference_backend() {
    let mut imp = TestableSlab::<SomeCStruct>::with_fixed_capacity(10).unwrap();
    check_stable_memory(&mut imp, 10)
}
