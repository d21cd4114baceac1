//! Streaming: which chunks an observer needs around itself.

use crate::extent::{Extent3, Point3};
use crate::location::{ChunkLocation, CHUNK_SIZE};
use crate::world::{ChunkId, ChunkWorld};
use vstd::prelude::*;

verus! {

/// A request to the generation path about one chunk coordinate.
#[derive(Clone, Copy, Debug, PartialEq, Eq, Structural)]
pub enum ChunkEvent {
    Generate(ChunkLocation),
    Update(ChunkLocation),
    Remove(ChunkLocation),
}

/// The streaming radius of an observer: how many chunks it needs around its own
/// chunk in each direction.
#[derive(Clone, Copy, Debug)]
pub struct Relative(pub [i32; 3]);

/// The box of chunk coordinates within `radius` of `center`, both ends
/// included. A negative radius gives a box without points.
pub open spec fn streaming_box(center: ChunkLocation, radius: [i32; 3]) -> Extent3 {
    Extent3 {
        minimum: Point3 {
            x: (center.0.x - radius[0]) as i32,
            y: (center.0.y - radius[1]) as i32,
            z: (center.0.z - radius[2]) as i32,
        },
        shape: Point3 {
            x: clip(1 + 2 * radius[0]) as i32,
            y: clip(1 + 2 * radius[1]) as i32,
            z: clip(1 + 2 * radius[2]) as i32,
        },
    }
}

/// A length, where a negative one counts as zero.
pub open spec fn clip(length: int) -> int {
    if length < 0 {
        0
    } else {
        length
    }
}

/// Whether the box around `center` fits the machine integers: its least
/// corner, its side lengths and the corner just past it all lie in `i32`.
pub open spec fn in_reach(center: ChunkLocation, radius: [i32; 3]) -> bool {
    &&& i32::MIN <= center.0.x - radius[0] <= i32::MAX
    &&& i32::MIN <= center.0.y - radius[1] <= i32::MAX
    &&& i32::MIN <= center.0.z - radius[2] <= i32::MAX
    &&& i32::MIN <= 1 + 2 * radius[0] <= i32::MAX
    &&& i32::MIN <= 1 + 2 * radius[1] <= i32::MAX
    &&& i32::MIN <= 1 + 2 * radius[2] <= i32::MAX
    &&& i32::MIN <= center.0.x + radius[0] + 1 <= i32::MAX
    &&& i32::MIN <= center.0.y + radius[1] + 1 <= i32::MAX
    &&& i32::MIN <= center.0.z + radius[2] + 1 <= i32::MAX
}

/// Runtime test of `in_reach`.
pub fn is_in_reach(center: &ChunkLocation, radius: &Relative) -> (r: bool)
    ensures
        r == in_reach(*center, radius.0),
{
    let c = center.0;
    let lo = i32::MIN as i64;
    let hi = i32::MAX as i64;
    let rx = radius.0[0] as i64;
    let ry = radius.0[1] as i64;
    let rz = radius.0[2] as i64;
    let cx = c.x as i64;
    let cy = c.y as i64;
    let cz = c.z as i64;
    lo <= cx - rx && cx - rx <= hi && lo <= cy - ry && cy - ry <= hi && lo <= cz - rz && cz - rz
        <= hi && lo <= 1 + 2 * rx && 1 + 2 * rx <= hi && lo <= 1 + 2 * ry && 1 + 2 * ry <= hi && lo
        <= 1 + 2 * rz && 1 + 2 * rz <= hi && lo <= cx + rx + 1 && cx + rx + 1 <= hi && lo <= cy + ry
        + 1 && cy + ry + 1 <= hi && lo <= cz + rz + 1 && cz + rz + 1 <= hi
}

/// One `Generate` request for each of `points` that the index does not hold,
/// in the order of `points`.
pub open spec fn requests(index: Map<ChunkLocation, ChunkId>, points: Seq<Point3>) -> Seq<
    ChunkEvent,
>
    decreases points.len(),
{
    if points.len() == 0 {
        Seq::empty()
    } else {
        let before = requests(index, points.drop_last());
        let at = ChunkLocation(points.last());
        if index.contains_key(at) {
            before
        } else {
            before.push(ChunkEvent::Generate(at))
        }
    }
}

/// What the requests for a list of distinct points are: each is a `Generate`,
/// for a point of the list that the index lacks; every such point is asked for,
/// and none twice.
pub proof fn lemma_requests(index: Map<ChunkLocation, ChunkId>, points: Seq<Point3>)
    requires
        points.no_duplicates(),
    ensures
        requests(index, points).no_duplicates(),
        requests(index, points).len() <= points.len(),
        forall|i: int|
            0 <= i < requests(index, points).len() ==> #[trigger] requests(index, points)[i]
                is Generate,
        forall|c: ChunkLocation| #[trigger]
            requests(index, points).contains(ChunkEvent::Generate(c)) <==> points.contains(c.0)
                && !index.contains_key(c),
        index.dom() =~= Set::<ChunkLocation>::empty() ==> requests(index, points).len()
            == points.len(),
    decreases points.len(),
{
    let r = requests(index, points);
    if points.len() > 0 {
        let head = points.drop_last();
        let at = ChunkLocation(points.last());
        let before = requests(index, head);
        lemma_requests(index, head);
        assert forall|c: ChunkLocation| #[trigger]
            r.contains(ChunkEvent::Generate(c)) implies points.contains(c.0) && !index.contains_key(
            c,
        ) by {
            let i = choose|i: int| 0 <= i < r.len() && r[i] == ChunkEvent::Generate(c);
            if i < before.len() {
                assert(before[i] == ChunkEvent::Generate(c));
                assert(before.contains(ChunkEvent::Generate(c)));
                assert(head.contains(c.0));
                let j = choose|j: int| 0 <= j < head.len() && head[j] == c.0;
                assert(points[j] == c.0);
            } else {
                assert(c == at);
                assert(points[points.len() - 1] == c.0);
            }
        }
        assert forall|c: ChunkLocation| points.contains(c.0) && !index.contains_key(c) implies #[trigger]
            r.contains(ChunkEvent::Generate(c)) by {
            let i = choose|i: int| 0 <= i < points.len() && points[i] == c.0;
            if i < points.len() - 1 {
                assert(head[i] == c.0);
                assert(head.contains(c.0));
                assert(before.contains(ChunkEvent::Generate(c)));
                let j = choose|j: int| 0 <= j < before.len() && before[j] == ChunkEvent::Generate(c);
                assert(r[j] == ChunkEvent::Generate(c));
            } else {
                assert(c == at);
                assert(r[r.len() - 1] == ChunkEvent::Generate(c));
            }
        }
        if !index.contains_key(at) {
            assert(!head.contains(at.0)) by {
                if head.contains(at.0) {
                    let i = choose|i: int| 0 <= i < head.len() && head[i] == at.0;
                    assert(points[i] == points[points.len() - 1]);
                }
            }
            assert(!before.contains(ChunkEvent::Generate(at)));
            assert forall|i: int, j: int| 0 <= i < r.len() && 0 <= j < r.len() && i != j implies r[i]
                != r[j] by {
                if i == before.len() {
                    assert(before[j] == r[j]);
                } else if j == before.len() {
                    assert(before[i] == r[i]);
                } else {
                    assert(before[i] == r[i]);
                    assert(before[j] == r[j]);
                }
            }
        }
        if index.dom() =~= Set::<ChunkLocation>::empty() {
            assert(!index.dom().contains(at));
        }
    }
}

/// The chunk coordinate of an observer first seen at `position` (its world
/// position in whole voxels).
pub fn chunk_location_add(position: Point3) -> (location: ChunkLocation)
    ensures
        location == ChunkLocation::containing(position),
{
    ChunkLocation(
        Point3 {
            x: position.x / CHUNK_SIZE,
            y: position.y / CHUNK_SIZE,
            z: position.z / CHUNK_SIZE,
        },
    )
}

/// Follows an observer that moved to `position`: its chunk coordinate is
/// recomputed, and stored only if it differs. Returns whether it changed.
pub fn chunk_location_transition(chunk_location: &mut ChunkLocation, position: Point3) -> (changed:
    bool)
    ensures
        *final(chunk_location) == ChunkLocation::containing(position),
        changed == (*old(chunk_location) != ChunkLocation::containing(position)),
{
    let pos = chunk_location_add(position);
    if pos != *chunk_location {
        *chunk_location = pos;
        true
    } else {
        false
    }
}

/// The requests of an observer whose chunk coordinate changed: one `Generate`
/// for every coordinate within its radius that the index does not hold yet,
/// walking the box with `x` fastest, then `y`, then `z`.
pub fn relative_update(world: &ChunkWorld, chunk_location: &ChunkLocation, relative: &Relative) -> (events:
    Vec<ChunkEvent>)
    requires
        in_reach(*chunk_location, relative.0),
    ensures
        events@ == requests(world.index(), streaming_box(*chunk_location, relative.0).points()),
{
    let c = chunk_location.0;
    let r = relative.0;
    let min = Point3 { x: c.x - r[0], y: c.y - r[1], z: c.z - r[2] };
    let lub = Point3 {
        x: (c.x as i64 + r[0] as i64 + 1) as i32,
        y: (c.y as i64 + r[1] as i64 + 1) as i32,
        z: (c.z as i64 + r[2] as i64 + 1) as i32,
    };
    let ghost bx = streaming_box(*chunk_location, relative.0);
    let ghost pts = bx.points();
    let ghost sx = bx.shape.x as int;
    let ghost sy = bx.shape.y as int;
    let ghost sz = bx.shape.z as int;
    let mut events: Vec<ChunkEvent> = Vec::new();
    if lub.x <= min.x || lub.y <= min.y || lub.z <= min.z {
        proof {
            assert(sx * sy * sz == 0) by (nonlinear_arith)
                requires
                    sx == 0 || sy == 0 || sz == 0,
            ;
            assert(pts =~= Seq::<Point3>::empty());
        }
        return events;
    }
    assert(bx.bounded());
    assert(pts.take(0) =~= Seq::<Point3>::empty());
    let ghost mut n: int = 0;
    let mut z: i32 = min.z;
    assert((z - min.z) * sy * sx == 0) by (nonlinear_arith)
        requires
            z == min.z,
    ;
    while z < lub.z
        invariant
            bx == streaming_box(*chunk_location, relative.0),
            pts == bx.points(),
            bx.bounded(),
            bx.minimum == min,
            sx == bx.shape.x && sy == bx.shape.y && sz == bx.shape.z,
            sx > 0 && sy > 0 && sz > 0,
            lub.x == min.x + sx && lub.y == min.y + sy && lub.z == min.z + sz,
            min.z <= z <= lub.z,
            n == (z - min.z) * sy * sx,
            0 <= n <= pts.len(),
            events@ == requests(world.index(), pts.take(n)),
        decreases lub.z - z,
    {
        let mut y: i32 = min.y;
        while y < lub.y
            invariant
                bx == streaming_box(*chunk_location, relative.0),
                pts == bx.points(),
                bx.bounded(),
                bx.minimum == min,
                sx == bx.shape.x && sy == bx.shape.y && sz == bx.shape.z,
                sx > 0 && sy > 0 && sz > 0,
                lub.x == min.x + sx && lub.y == min.y + sy && lub.z == min.z + sz,
                min.z <= z < lub.z,
                min.y <= y <= lub.y,
                n == ((z - min.z) * sy + (y - min.y)) * sx,
                0 <= n <= pts.len(),
                events@ == requests(world.index(), pts.take(n)),
            decreases lub.y - y,
        {
            let mut x: i32 = min.x;
            while x < lub.x
                invariant
                    bx == streaming_box(*chunk_location, relative.0),
                    pts == bx.points(),
                    bx.bounded(),
                    bx.minimum == min,
                    sx == bx.shape.x && sy == bx.shape.y && sz == bx.shape.z,
                    sx > 0 && sy > 0 && sz > 0,
                    lub.x == min.x + sx && lub.y == min.y + sy && lub.z == min.z + sz,
                    min.z <= z < lub.z,
                    min.y <= y < lub.y,
                    min.x <= x <= lub.x,
                    n == ((z - min.z) * sy + (y - min.y)) * sx + (x - min.x),
                    0 <= n <= pts.len(),
                    events@ == requests(world.index(), pts.take(n)),
                decreases lub.x - x,
            {
                let p = Point3 { x, y, z };
                proof {
                    bx.lemma_offset_bound(p);
                    bx.lemma_point_at_of_offset(p);
                    assert(pts[n] == p);
                    assert(pts.take(n + 1).drop_last() =~= pts.take(n));
                    assert(pts.take(n + 1).last() == p);
                }
                if !world.contains_key(ChunkLocation(p)) {
                    events.push(ChunkEvent::Generate(ChunkLocation(p)));
                }
                x = x + 1;
                proof {
                    n = n + 1;
                }
            }
            y = y + 1;
            assert(((z - min.z) * sy + (y - 1 - min.y)) * sx + sx == ((z - min.z) * sy + (y
                - min.y)) * sx) by (nonlinear_arith);
        }
        z = z + 1;
        assert(((z - 1 - min.z) * sy + sy) * sx == (z - min.z) * sy * sx) by (nonlinear_arith);
    }
    proof {
        assert(n == sz * sy * sx);
        assert(sz * sy * sx == sx * sy * sz) by (nonlinear_arith);
        assert(pts.take(n) =~= pts);
    }
    events
}

/// An observed entity: the chunk coordinate it was last seen in, if it has been
/// seen at all, and its streaming radius.
#[derive(Clone, Copy, Debug)]
pub struct StreamingSubject {
    pub location: Option<ChunkLocation>,
    pub radius: Relative,
}

impl StreamingSubject {
    /// A subject that has not been seen yet.
    pub fn new(radius: Relative) -> (subject: StreamingSubject)
        ensures
            subject.location is None,
            subject.radius == radius,
    {
        StreamingSubject { location: None, radius }
    }

    /// One cycle for a subject seen at `position`: its chunk coordinate is
    /// recomputed, and only if that changed, or the subject is seen for the
    /// first time, it asks for the chunks around it that the index lacks.
    pub fn observe(&mut self, position: Point3, world: &ChunkWorld) -> (events: Vec<ChunkEvent>)
        requires
            old(self).location != Some(ChunkLocation::containing(position)) ==> in_reach(
                ChunkLocation::containing(position),
                old(self).radius.0,
            ),
        ensures
            final(self).radius == old(self).radius,
            final(self).location == Some(ChunkLocation::containing(position)),
            events@ == (if old(self).location == Some(ChunkLocation::containing(position)) {
                Seq::<ChunkEvent>::empty()
            } else {
                requests(
                    world.index(),
                    streaming_box(ChunkLocation::containing(position), old(self).radius.0).points(),
                )
            }),
    {
        let changed = match self.location {
            Some(mut current) => chunk_location_transition(&mut current, position),
            None => true,
        };
        if changed {
            let location = chunk_location_add(position);
            self.location = Some(location);
            relative_update(world, &location, &self.radius)
        } else {
            Vec::new()
        }
    }
}

/// From an empty index, an observer asks for every coordinate of its box
/// exactly once: as many requests as the box has points, all of them
/// `Generate`, no two for the same coordinate.
pub proof fn lemma_requests_from_empty_index(center: ChunkLocation, radius: [i32; 3])
    requires
        in_reach(center, radius),
    ensures
        ({
            let bx = streaming_box(center, radius);
            let r = requests(Map::<ChunkLocation, ChunkId>::empty(), bx.points());
            &&& r.len() == bx.volume()
            &&& r.no_duplicates()
            &&& forall|c: ChunkLocation| #[trigger]
                r.contains(ChunkEvent::Generate(c)) <==> bx.has(c.0)
            &&& forall|i: int| 0 <= i < r.len() ==> #[trigger] r[i] is Generate
        }),
{
    let bx = streaming_box(center, radius);
    assert(bx.bounded());
    bx.lemma_points();
    let index = Map::<ChunkLocation, ChunkId>::empty();
    lemma_requests(index, bx.points());
    assert(0 <= bx.shape.x * bx.shape.y * bx.shape.z) by (nonlinear_arith)
        requires
            0 <= bx.shape.x,
            0 <= bx.shape.y,
            0 <= bx.shape.z,
    ;
    let r = requests(index, bx.points());
    assert(index.dom() =~= Set::<ChunkLocation>::empty());
    assert forall|c: ChunkLocation| #[trigger]
        r.contains(ChunkEvent::Generate(c)) <==> bx.has(c.0) by {
        assert(bx.points().contains(c.0) <==> bx.has(c.0));
    }
}

/// An observer never asks for a coordinate that the index already holds, and
/// never twice for one coordinate.
pub proof fn lemma_requests_skip_present(
    index: Map<ChunkLocation, ChunkId>,
    center: ChunkLocation,
    radius: [i32; 3],
)
    requires
        in_reach(center, radius),
    ensures
        ({
            let bx = streaming_box(center, radius);
            let r = requests(index, bx.points());
            &&& r.no_duplicates()
            &&& forall|c: ChunkLocation| #[trigger]
                r.contains(ChunkEvent::Generate(c)) <==> bx.has(c.0) && !index.contains_key(c)
        }),
{
    let bx = streaming_box(center, radius);
    assert(bx.bounded());
    bx.lemma_points();
    lemma_requests(index, bx.points());
    let r = requests(index, bx.points());
    assert forall|c: ChunkLocation| #[trigger]
        r.contains(ChunkEvent::Generate(c)) <==> bx.has(c.0) && !index.contains_key(c) by {
        assert(bx.points().contains(c.0) <==> bx.has(c.0));
    }
}

} // verus!
