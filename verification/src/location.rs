//! Chunk coordinates: positions on the grid of chunks, in chunk units.

use crate::extent::{Extent3, Point3};
use vstd::prelude::*;

verus! {

/// Side length of a chunk, in voxels.
pub const CHUNK_SIZE: i32 = 32;

/// Division by the chunk size that rounds toward zero.
pub open spec fn chunk_index(v: int) -> int {
    if v >= 0 {
        v / 32
    } else {
        -((-v) / 32)
    }
}

/// The chunk-grid position of a chunk.
#[derive(Clone, Copy, Debug, PartialEq, Eq, Structural, Hash)]
pub struct ChunkLocation(pub Point3);

impl ChunkLocation {
    /// The chunk coordinate of a world position given in whole voxels: each
    /// component divided by the chunk size, rounding toward zero.
    pub open spec fn containing(position: Point3) -> ChunkLocation {
        ChunkLocation(
            Point3 {
                x: chunk_index(position.x as int) as i32,
                y: chunk_index(position.y as int) as i32,
                z: chunk_index(position.z as int) as i32,
            },
        )
    }

    /// Whether the voxels of this chunk, with one more voxel on every side,
    /// have coordinates inside `i32`.
    pub open spec fn representable(self) -> bool {
        &&& i32::MIN < self.0.x * 32 && self.0.x * 32 + 33 <= i32::MAX
        &&& i32::MIN < self.0.y * 32 && self.0.y * 32 + 33 <= i32::MAX
        &&& i32::MIN < self.0.z * 32 && self.0.z * 32 + 33 <= i32::MAX
    }

    /// The 32x32x32 box of voxels that belongs to this chunk.
    pub open spec fn region(self) -> Extent3 {
        Extent3 {
            minimum: Point3 {
                x: (self.0.x * 32) as i32,
                y: (self.0.y * 32) as i32,
                z: (self.0.z * 32) as i32,
            },
            shape: Point3 { x: 32, y: 32, z: 32 },
        }
    }

    /// Runtime test of `representable`.
    pub fn is_representable(&self) -> (r: bool)
        ensures
            r == self.representable(),
    {
        let lo: i32 = -67108863;
        let hi: i32 = 67108862;
        lo <= self.0.x && self.0.x <= hi && lo <= self.0.y && self.0.y <= hi && lo <= self.0.z
            && self.0.z <= hi
    }

    /// The box of voxels that belongs to this chunk.
    pub fn voxel_region(&self) -> (e: Extent3)
        requires
            self.representable(),
        ensures
            e == self.region(),
            e.valid(),
    {
        assert(32 * 32 * 32 == 32768) by (nonlinear_arith);
        Extent3 {
            minimum: Point3 { x: self.0.x * 32, y: self.0.y * 32, z: self.0.z * 32 },
            shape: Point3 { x: 32, y: 32, z: 32 },
        }
    }
}

impl From<Point3> for ChunkLocation {
    fn from(point: Point3) -> (location: ChunkLocation) {
        ChunkLocation(point)
    }
}

impl vstd::std_specs::convert::FromSpecImpl<Point3> for ChunkLocation {
    open spec fn obeys_from_spec() -> bool {
        true
    }

    open spec fn from_spec(point: Point3) -> ChunkLocation {
        ChunkLocation(point)
    }
}

impl From<ChunkLocation> for Point3 {
    fn from(location: ChunkLocation) -> (point: Point3) {
        location.0
    }
}

impl vstd::std_specs::convert::FromSpecImpl<ChunkLocation> for Point3 {
    open spec fn obeys_from_spec() -> bool {
        true
    }

    open spec fn from_spec(location: ChunkLocation) -> Point3 {
        location.0
    }
}

/// The lattice point with the given `[x, y, z]` components.
pub fn to_bb(pos: [i32; 3]) -> (point: Point3)
    ensures
        point == (Point3 { x: pos[0], y: pos[1], z: pos[2] }),
{
    Point3::from_array(pos)
}

/// The chunk coordinate with the given `[x, y, z]` components.
pub fn chunk_location(pos: [i32; 3]) -> (location: ChunkLocation)
    ensures
        location == ChunkLocation(Point3 { x: pos[0], y: pos[1], z: pos[2] }),
{
    ChunkLocation(to_bb(pos))
}

} // verus!
