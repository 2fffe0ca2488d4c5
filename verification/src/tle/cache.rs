//! In-memory TLE cache state keyed by NORAD id. A generation counter advances
//! on every invalidation so that a load observed before an invalidation can
//! no longer be stored: a stale read never repopulates the cache.
use vstd::prelude::*;
use std::collections::HashMap;

verus! {

broadcast use vstd::std_specs::hash::group_hash_axioms;

/// Cached records by NORAD id, with the invalidation generation.
#[derive(Debug)]
pub struct TleCache<V> {
    generation: u64,
    records: HashMap<u32, V>,
}

impl<V> TleCache<V> {
    /// The cached records.
    pub closed spec fn entries(&self) -> Map<u32, V> {
        self.records@
    }

    /// The invalidation generation.
    pub closed spec fn spec_generation(&self) -> u64 {
        self.generation
    }

    /// Whether a record loaded when the generation was `observed_generation`
    /// is still stored: no invalidation happened since.
    pub open spec fn stores_load(&self, observed_generation: u64) -> bool {
        self.spec_generation() == observed_generation
    }

    /// An empty cache at generation zero.
    pub fn new() -> (c: Self)
        ensures
            c.entries() == Map::<u32, V>::empty(),
            c.spec_generation() == 0,
    {
        TleCache { generation: 0, records: HashMap::new() }
    }

    /// The current generation, read before a load that may later be stored.
    pub fn generation(&self) -> (g: u64)
        ensures
            g == self.spec_generation(),
    {
        self.generation
    }

    /// The cached record for `norad`, if any.
    pub fn get(&self, norad: u32) -> (r: Option<&V>)
        ensures
            r matches Some(v) ==> self.entries().contains_key(norad) && *v == self.entries()[norad],
            r is None ==> !self.entries().contains_key(norad),
    {
        self.records.get(&norad)
    }

    /// Removes one entry and advances the generation (after an upsert or
    /// delete of that NORAD).
    pub fn invalidate(&mut self, norad: u32)
        ensures
            final(self).spec_generation() == old(self).spec_generation().wrapping_add(1),
            final(self).entries() == old(self).entries().remove(norad),
    {
        self.generation = self.generation.wrapping_add(1);
        self.records.remove(&norad);
    }

    /// Drops every entry and advances the generation (after bulk writes).
    pub fn invalidate_all(&mut self)
        ensures
            final(self).spec_generation() == old(self).spec_generation().wrapping_add(1),
            final(self).entries() == Map::<u32, V>::empty(),
    {
        self.generation = self.generation.wrapping_add(1);
        self.records.clear();
    }

    /// Number of cached records.
    pub fn len(&self) -> (n: usize)
        ensures
            n == self.entries().len(),
    {
        self.records.len()
    }

    /// Whether nothing is cached.
    pub fn is_empty(&self) -> (b: bool)
        ensures
            b == (self.entries().len() == 0),
    {
        self.records.len() == 0
    }

    /// Stores a loaded record only when no invalidation happened since the
    /// load began (the generation still equals `observed_generation`).
    pub fn insert_if_current(&mut self, norad: u32, record: V, observed_generation: u64) -> (stored:
        bool)
        ensures
            stored == old(self).stores_load(observed_generation),
            final(self).spec_generation() == old(self).spec_generation(),
            stored ==> final(self).entries() == old(self).entries().insert(norad, record),
            !stored ==> final(self).entries() == old(self).entries(),
    {
        if self.generation != observed_generation {
            return false;
        }
        self.records.insert(norad, record);
        true
    }
}

/// After an invalidation, a record loaded at the generation observed before
/// it is no longer stored.
pub proof fn stale_load_is_rejected<V>(observed: TleCache<V>, invalidated: TleCache<V>)
    requires
        invalidated.spec_generation() == observed.spec_generation().wrapping_add(1),
    ensures
        !invalidated.stores_load(observed.spec_generation()),
{
}

/// Once a load is stored, a lookup finds it, and the other entries stay as
/// they were.
pub proof fn current_load_is_served<V>(before: TleCache<V>, after: TleCache<V>, norad: u32, record: V)
    requires
        after.entries() == before.entries().insert(norad, record),
    ensures
        after.entries().contains_key(norad),
        after.entries()[norad] == record,
        forall|other: u32|
            other != norad ==> (after.entries().contains_key(other) == before.entries().contains_key(
                other,
            )),
{
}

/// An invalidated NORAD is no longer cached, and the others keep their entry.
pub proof fn invalidate_forgets_only_that_norad<V>(before: TleCache<V>, after: TleCache<V>, norad: u32)
    requires
        after.entries() == before.entries().remove(norad),
    ensures
        !after.entries().contains_key(norad),
        forall|other: u32|
            other != norad ==> (after.entries().contains_key(other) == before.entries().contains_key(
                other,
            )),
{
}

} // verus!
