//! Trusted bookkeeping map from issued slot ids to storage positions.
//!
//! The map-keyed backends track which issued id lives at which position of
//! their backing storage. As in-use ids are already small dense integers,
//! hashing them is redundant overhead: the map is hashbrown's `HashMap` with
//! nohash-hasher's identity "hasher" over `usize` keys. The verifier cannot
//! see inside the map; its contents are named by `id_map_entries`, and the
//! few operations the backends call are wrapped below with contracts that
//! state what hashbrown's source shows.

use vstd::prelude::*;

verus! {

/// Opaque holder for `hashbrown::HashMap<usize, usize, BuildNoHashHasher<usize>>`.
///
/// The map type itself cannot be declared to the verifier (it carries an
/// allocator type parameter), so it lives behind this struct and is spoken
/// of only through `id_map_entries`.
#[verifier::external_body]
pub struct IdMap {
    inner: hashbrown::HashMap<usize, usize, nohash_hasher::BuildNoHashHasher<usize>>,
}

/// The entries the bookkeeping map currently holds: issued id to storage
/// position.
pub uninterp spec fn id_map_entries(m: IdMap) -> Map<usize, usize>;

/// What a freshly made bookkeeping map holds: nothing.
pub open spec fn id_map_no_entries() -> Map<usize, usize> {
    Map::<usize, usize>::empty()
}

/// Relies on hashbrown's `HashMap::with_capacity_and_hasher`: a fresh map
/// with no entries, pre-sized for `cap` of them.
#[verifier::external_body]
pub(crate) fn id_map_new(cap: usize) -> (m: IdMap)
    ensures
        id_map_entries(m) == id_map_no_entries(),
{
    IdMap {
        inner: hashbrown::HashMap::with_capacity_and_hasher(
            cap,
            nohash_hasher::BuildNoHashHasher::default(),
        ),
    }
}

/// Relies on hashbrown's `HashMap::get`: the value stored under `id`, if any.
#[verifier::external_body]
pub(crate) fn id_map_get(m: &IdMap, id: usize) -> (r: Option<usize>)
    ensures
        r == if id_map_entries(*m).dom().contains(id) {
            Some(id_map_entries(*m)[id])
        } else {
            None::<usize>
        },
{
    m.inner.get(&id).copied()
}

/// Relies on hashbrown's `HashMap::insert`: maps `id` to `pos`, displacing
/// and returning the previous value under `id`, if any.
#[verifier::external_body]
pub(crate) fn id_map_insert(m: &mut IdMap, id: usize, pos: usize) -> (displaced: Option<usize>)
    ensures
        id_map_entries(*final(m)) == id_map_entries(*old(m)).insert(id, pos),
        displaced == if id_map_entries(*old(m)).dom().contains(id) {
            Some(id_map_entries(*old(m))[id])
        } else {
            None::<usize>
        },
{
    m.inner.insert(id, pos)
}

/// Relies on hashbrown's `HashMap::remove`: removes and returns the value
/// stored under `id`, if any.
#[verifier::external_body]
pub(crate) fn id_map_remove(m: &mut IdMap, id: usize) -> (removed: Option<usize>)
    ensures
        id_map_entries(*final(m)) == id_map_entries(*old(m)).remove(id),
        removed == if id_map_entries(*old(m)).dom().contains(id) {
            Some(id_map_entries(*old(m))[id])
        } else {
            None::<usize>
        },
{
    m.inner.remove(&id)
}

} // verus!
