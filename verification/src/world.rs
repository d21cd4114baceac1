//! The spatial index: which chunk lives at which chunk coordinate.

use crate::location::ChunkLocation;
use std::collections::HashMap;
use vstd::prelude::*;

verus! {

broadcast use vstd::std_specs::hash::group_hash_axioms;

/// Handle of a live chunk.
#[derive(Clone, Copy, Debug, PartialEq, Eq, Structural, Hash)]
pub struct ChunkId(pub u64);

/// The integer under which a chunk coordinate is stored: its three components,
/// each shifted to be non-negative, side by side in 32-bit fields.
pub open spec fn key_of(c: ChunkLocation) -> u128 {
    (((c.0.x + 0x8000_0000) * 0x1_0000_0000 + (c.0.y + 0x8000_0000)) * 0x1_0000_0000 + (c.0.z
        + 0x8000_0000)) as u128
}

/// Different coordinates are stored under different integers.
pub proof fn lemma_key_injective(a: ChunkLocation, b: ChunkLocation)
    ensures
        key_of(a) == key_of(b) <==> a == b,
{
}

fn key(c: ChunkLocation) -> (k: u128)
    ensures
        k == key_of(c),
{
    let x: u128 = (c.0.x as i64 + 0x8000_0000) as u128;
    let y: u128 = (c.0.y as i64 + 0x8000_0000) as u128;
    let z: u128 = (c.0.z as i64 + 0x8000_0000) as u128;
    (x * 0x1_0000_0000 + y) * 0x1_0000_0000 + z
}

/// The index after chunk `id` has been registered at `at`: `at` now leads to
/// `id`, and `id` is found nowhere else.
pub open spec fn registered(
    index: Map<ChunkLocation, ChunkId>,
    at: ChunkLocation,
    id: ChunkId,
) -> Map<ChunkLocation, ChunkId> {
    Map::new(
        |c: ChunkLocation| c == at || (index.contains_key(c) && index[c] != id),
        |c: ChunkLocation|
            if c == at {
                id
            } else {
                index[c]
            },
    )
}

/// The index after chunk `id` has been discarded: no coordinate leads to it.
pub open spec fn unregistered(index: Map<ChunkLocation, ChunkId>, id: ChunkId) -> Map<
    ChunkLocation,
    ChunkId,
> {
    Map::new(
        |c: ChunkLocation| index.contains_key(c) && index[c] != id,
        |c: ChunkLocation| index[c],
    )
}

/// The index after registering each `(chunk, coordinate)` pair in turn.
pub open spec fn registered_all(
    index: Map<ChunkLocation, ChunkId>,
    changed: Seq<(ChunkId, ChunkLocation)>,
) -> Map<ChunkLocation, ChunkId>
    decreases changed.len(),
{
    if changed.len() == 0 {
        index
    } else {
        let last = changed.last();
        registered(registered_all(index, changed.drop_last()), last.1, last.0)
    }
}

/// The index after discarding each chunk in turn.
pub open spec fn unregistered_all(index: Map<ChunkLocation, ChunkId>, removals: Seq<ChunkId>) -> Map<
    ChunkLocation,
    ChunkId,
>
    decreases removals.len(),
{
    if removals.len() == 0 {
        index
    } else {
        unregistered(unregistered_all(index, removals.drop_last()), removals.last())
    }
}

/// Whether no chunk is found at two coordinates.
pub open spec fn one_location_per_chunk(index: Map<ChunkLocation, ChunkId>) -> bool {
    forall|a: ChunkLocation, b: ChunkLocation|
        index.contains_key(a) && index.contains_key(b) && index[a] == index[b] ==> a == b
}

/// The mapping from chunk coordinate to live chunk. A coordinate leads to at
/// most one chunk, and a chunk is found at most at one coordinate.
pub struct ChunkWorld {
    world: HashMap<u128, u64>,
    owners: HashMap<u64, u128>,
}

impl ChunkWorld {
    /// The index as a mathematical map.
    pub closed spec fn index(&self) -> Map<ChunkLocation, ChunkId> {
        Map::new(
            |c: ChunkLocation| self.world@.contains_key(key_of(c)),
            |c: ChunkLocation| ChunkId(self.world@[key_of(c)]),
        )
    }

    /// The two directions of the index agree with each other.
    pub closed spec fn wf(&self) -> bool {
        &&& forall|k: u128| #[trigger]
            self.world@.contains_key(k) ==> self.owners@.contains_key(self.world@[k])
                && self.owners@[self.world@[k]] == k
        &&& forall|e: u64| #[trigger]
            self.owners@.contains_key(e) ==> self.world@.contains_key(self.owners@[e])
                && self.world@[self.owners@[e]] == e
    }

    /// In a well-formed index no chunk is found at two coordinates.
    pub proof fn lemma_one_location_per_chunk(&self)
        requires
            self.wf(),
        ensures
            one_location_per_chunk(self.index()),
    {
        assert forall|a: ChunkLocation, b: ChunkLocation|
            self.index().contains_key(a) && self.index().contains_key(b) && self.index()[a]
                == self.index()[b] implies a == b by {
            assert(self.world@.contains_key(key_of(a)));
            assert(self.world@.contains_key(key_of(b)));
            lemma_key_injective(a, b);
        }
    }

    /// The empty index.
    pub fn new() -> (w: ChunkWorld)
        ensures
            w.wf(),
            w.index() == Map::<ChunkLocation, ChunkId>::empty(),
    {
        let w = ChunkWorld { world: HashMap::new(), owners: HashMap::new() };
        assert(w.index() =~= Map::<ChunkLocation, ChunkId>::empty());
        w
    }

    /// Whether a chunk lives at `at`.
    pub fn contains_key(&self, at: ChunkLocation) -> (r: bool)
        ensures
            r == self.index().contains_key(at),
    {
        let k = key(at);
        self.world.contains_key(&k)
    }

    /// The chunk that lives at `at`, if any.
    pub fn get(&self, at: ChunkLocation) -> (r: Option<ChunkId>)
        ensures
            r == (if self.index().contains_key(at) {
                Some(self.index()[at])
            } else {
                None
            }),
    {
        let k = key(at);
        match self.world.get(&k) {
            Some(e) => Some(ChunkId(*e)),
            None => None,
        }
    }

    /// Registers chunk `id` at `at`, replacing whatever lived there and
    /// forgetting any other coordinate of `id`.
    pub fn register(&mut self, at: ChunkLocation, id: ChunkId)
        requires
            old(self).wf(),
        ensures
            final(self).wf(),
            final(self).index() == registered(old(self).index(), at, id),
    {
        let k = key(at);
        let stale: Option<u128> = match self.owners.get(&id.0) {
            Some(s) => Some(*s),
            None => None,
        };
        if let Some(s) = stale {
            self.world.remove(&s);
            self.owners.remove(&id.0);
        }
        let previous: Option<u64> = match self.world.get(&k) {
            Some(p) => Some(*p),
            None => None,
        };
        if let Some(p) = previous {
            self.owners.remove(&p);
        }
        self.world.insert(k, id.0);
        self.owners.insert(id.0, k);
        proof {
            assert forall|c: ChunkLocation|
                final(self).index().contains_key(c) == registered(
                    old(self).index(),
                    at,
                    id,
                ).contains_key(c) by {
                lemma_key_injective(c, at);
                if old(self).world@.contains_key(key_of(c)) {
                }
            }
            assert forall|c: ChunkLocation| #[trigger]
                final(self).index().contains_key(c) implies final(self).index()[c] == registered(
                old(self).index(),
                at,
                id,
            )[c] by {
                lemma_key_injective(c, at);
            }
            assert(final(self).index() =~= registered(old(self).index(), at, id));
        }
    }

    /// Forgets chunk `id`: the coordinate that led to it, if any, becomes free.
    pub fn unregister(&mut self, id: ChunkId)
        requires
            old(self).wf(),
        ensures
            final(self).wf(),
            final(self).index() == unregistered(old(self).index(), id),
    {
        let found: Option<u128> = match self.owners.get(&id.0) {
            Some(s) => Some(*s),
            None => None,
        };
        if let Some(s) = found {
            self.world.remove(&s);
            self.owners.remove(&id.0);
        }
        proof {
            assert forall|c: ChunkLocation|
                final(self).index().contains_key(c) == unregistered(
                    old(self).index(),
                    id,
                ).contains_key(c) by {
                if old(self).world@.contains_key(key_of(c)) {
                }
            }
            assert(final(self).index() =~= unregistered(old(self).index(), id));
        }
    }
}

impl Default for ChunkWorld {
    fn default() -> (w: ChunkWorld)
        ensures
            w.wf(),
            w.index() == Map::<ChunkLocation, ChunkId>::empty(),
    {
        ChunkWorld::new()
    }
}

/// Records every changed chunk at its coordinate, in the order given.
pub fn add_to_world(world: &mut ChunkWorld, changed: &Vec<(ChunkId, ChunkLocation)>)
    requires
        old(world).wf(),
    ensures
        final(world).wf(),
        final(world).index() == registered_all(old(world).index(), changed@),
{
    let mut i: usize = 0;
    while i < changed.len()
        invariant
            i <= changed.len(),
            world.wf(),
            world.index() == registered_all(old(world).index(), changed@.take(i as int)),
        decreases changed.len() - i,
    {
        let (id, at) = changed[i];
        world.register(at, id);
        proof {
            assert(changed@.take(i as int + 1).drop_last() == changed@.take(i as int));
        }
        i += 1;
    }
    proof {
        assert(changed@.take(changed.len() as int) == changed@);
    }
}

/// Frees the coordinate of every discarded chunk, in the order given. A chunk
/// that is not in the index is passed over.
pub fn remove_from_world(world: &mut ChunkWorld, removals: &Vec<ChunkId>)
    requires
        old(world).wf(),
    ensures
        final(world).wf(),
        final(world).index() == unregistered_all(old(world).index(), removals@),
{
    let mut i: usize = 0;
    while i < removals.len()
        invariant
            i <= removals.len(),
            world.wf(),
            world.index() == unregistered_all(old(world).index(), removals@.take(i as int)),
        decreases removals.len() - i,
    {
        world.unregister(removals[i]);
        proof {
            assert(removals@.take(i as int + 1).drop_last() == removals@.take(i as int));
        }
        i += 1;
    }
    proof {
        assert(removals@.take(removals.len() as int) == removals@);
    }
}

} // verus!
