//! Handling generation requests: which chunks come into being.

use crate::chunk::Chunk;
use crate::extent::Point3;
use crate::generation::GeneratingArea;
use crate::location::ChunkLocation;
use crate::streaming::ChunkEvent;
use crate::world::{registered, ChunkId, ChunkWorld};
use vstd::prelude::*;

verus! {

/// The coordinates at which a batch of requests brings a chunk into being, in
/// the order of the requests: those of the `Generate` requests for a
/// coordinate that neither the index holds nor an earlier request of the batch
/// asked for. `Update` and `Remove` requests bring nothing about.
pub open spec fn accepted(index: Map<ChunkLocation, ChunkId>, events: Seq<ChunkEvent>) -> Seq<
    ChunkLocation,
>
    decreases events.len(),
{
    if events.len() == 0 {
        Seq::empty()
    } else {
        let before = accepted(index, events.drop_last());
        match events.last() {
            ChunkEvent::Generate(at) => if index.contains_key(at) || before.contains(at) {
                before
            } else {
                before.push(at)
            },
            ChunkEvent::Update(_) => before,
            ChunkEvent::Remove(_) => before,
        }
    }
}

fn listed(spawns: &Vec<ChunkLocation>, at: ChunkLocation) -> (r: bool)
    ensures
        r == spawns@.contains(at),
{
    let mut i: usize = 0;
    while i < spawns.len()
        invariant
            i <= spawns@.len(),
            forall|j: int| 0 <= j < i ==> spawns@[j] != at,
        decreases spawns@.len() - i,
    {
        if spawns[i] == at {
            return true;
        }
        i += 1;
    }
    false
}

/// Decides which chunks a batch of requests brings into being. A `Generate`
/// request is dropped where a chunk already lives at its coordinate, pending or
/// complete, and where the batch has asked for the coordinate before.
pub fn generate_chunk(events: &Vec<ChunkEvent>, world: &ChunkWorld) -> (spawns: Vec<ChunkLocation>)
    ensures
        spawns@ == accepted(world.index(), events@),
{
    let mut spawns: Vec<ChunkLocation> = Vec::new();
    let mut i: usize = 0;
    assert(events@.take(0) =~= Seq::<ChunkEvent>::empty());
    while i < events.len()
        invariant
            i <= events@.len(),
            spawns@ == accepted(world.index(), events@.take(i as int)),
        decreases events@.len() - i,
    {
        proof {
            assert(events@.take(i as int + 1).drop_last() =~= events@.take(i as int));
        }
        match events[i] {
            ChunkEvent::Generate(at) => {
                if !world.contains_key(at) && !listed(&spawns, at) {
                    spawns.push(at);
                }
            },
            ChunkEvent::Update(_) => {},
            ChunkEvent::Remove(_) => {},
        }
        i += 1;
    }
    proof {
        assert(events@.take(events@.len() as int) =~= events@);
    }
    spawns
}

/// A fresh chunk of air for coordinate `at`, and the area that marks it as
/// still being generated: the chunk's own region.
pub fn spawn_chunk(at: ChunkLocation) -> (spawned: (Chunk, GeneratingArea))
    requires
        at.representable(),
    ensures
        spawned.0.wf(),
        spawned.0.location() == at,
        forall|p: Point3| spawned.0.extent().has(p) ==> spawned.0.voxel(p) == 0,
        spawned.1.0 == at.region(),
{
    (Chunk::new(at), GeneratingArea(at.voxel_region()))
}

/// A batch brings a chunk into being exactly at the coordinates that it asks
/// to generate and that the index lacks, and at none of them twice.
pub proof fn lemma_accepted(index: Map<ChunkLocation, ChunkId>, events: Seq<ChunkEvent>)
    ensures
        accepted(index, events).no_duplicates(),
        forall|c: ChunkLocation| #[trigger]
            accepted(index, events).contains(c) <==> events.contains(ChunkEvent::Generate(c))
                && !index.contains_key(c),
    decreases events.len(),
{
    let r = accepted(index, events);
    if events.len() > 0 {
        let head = events.drop_last();
        let before = accepted(index, head);
        lemma_accepted(index, head);
        assert forall|c: ChunkLocation| #[trigger] r.contains(c) implies events.contains(
            ChunkEvent::Generate(c),
        ) && !index.contains_key(c) by {
            let i = choose|i: int| 0 <= i < r.len() && r[i] == c;
            if i < before.len() {
                assert(before[i] == c);
                assert(before.contains(c));
                assert(head.contains(ChunkEvent::Generate(c)));
                let j = choose|j: int| 0 <= j < head.len() && head[j] == ChunkEvent::Generate(c);
                assert(events[j] == ChunkEvent::Generate(c));
            } else {
                assert(events[events.len() - 1] == ChunkEvent::Generate(c));
            }
        }
        assert forall|c: ChunkLocation|
            events.contains(ChunkEvent::Generate(c)) && !index.contains_key(c) implies #[trigger]
            r.contains(c) by {
            let i = choose|i: int| 0 <= i < events.len() && events[i] == ChunkEvent::Generate(c);
            if i < events.len() - 1 {
                assert(head[i] == ChunkEvent::Generate(c));
                assert(head.contains(ChunkEvent::Generate(c)));
                assert(before.contains(c));
                let j = choose|j: int| 0 <= j < before.len() && before[j] == c;
                assert(r[j] == c);
            } else {
                if before.contains(c) {
                    let j = choose|j: int| 0 <= j < before.len() && before[j] == c;
                    assert(r[j] == c);
                } else {
                    assert(r[r.len() - 1] == c);
                }
            }
        }
        assert forall|a: int, b: int| 0 <= a < r.len() && 0 <= b < r.len() && a != b implies r[a]
            != r[b] by {
            if r.len() > before.len() {
                assert(!before.contains(r[r.len() - 1]));
                if a < before.len() {
                    assert(before[a] == r[a]);
                }
                if b < before.len() {
                    assert(before[b] == r[b]);
                }
            }
        }
    }
}

/// Once a chunk is registered at `at`, pending or complete, exactly that chunk
/// is found there, and no batch of requests brings another chunk into being at
/// `at`.
pub proof fn lemma_generate_once(
    index: Map<ChunkLocation, ChunkId>,
    at: ChunkLocation,
    id: ChunkId,
    events: Seq<ChunkEvent>,
)
    ensures
        registered(index, at, id).contains_key(at),
        registered(index, at, id)[at] == id,
        !accepted(registered(index, at, id), events).contains(at),
{
    lemma_accepted(registered(index, at, id), events);
}

/// A batch that asks for `at` while the index lacks it brings exactly one
/// chunk into being there, however often it asks.
pub proof fn lemma_generate_first(
    index: Map<ChunkLocation, ChunkId>,
    at: ChunkLocation,
    events: Seq<ChunkEvent>,
)
    requires
        !index.contains_key(at),
        events.contains(ChunkEvent::Generate(at)),
    ensures
        accepted(index, events).contains(at),
        accepted(index, events).no_duplicates(),
{
    lemma_accepted(index, events);
}

} // verus!
