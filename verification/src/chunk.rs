//! Chunks: 32x32x32 voxels at one chunk coordinate, stored with a border of
//! one voxel on every side.

use crate::extent::{Extent3, Point3};
use crate::grid::{
    array_cells, array_clone, array_extent, array_fill, array_get, array_greedy_quads, array_set,
    greedy_quads_of, quad_inside,
};
use crate::mesh::{cube_face, Face, Quad, QuadGroup};
use crate::location::ChunkLocation;
use crate::voxel::Voxel;
use building_blocks::storage::{Array, Channel};
use vstd::prelude::*;

verus! {

/// The voxels of one chunk coordinate. The stored box is the chunk's own
/// 32x32x32 region grown by one voxel on every side (34x34x34); the border
/// tells the mesher what lies across the chunk's faces.
pub struct Chunk {
    pos: ChunkLocation,
    data: Array<[i32; 3], Channel<Voxel, Vec<Voxel>>>,
}

impl Chunk {
    /// The chunk coordinate.
    pub closed spec fn location(&self) -> ChunkLocation {
        self.pos
    }

    /// The stored box: the chunk's region and its border.
    pub open spec fn extent(&self) -> Extent3 {
        self.location().region().grown(1)
    }

    /// The material id stored for `p`.
    pub closed spec fn voxel(&self, p: Point3) -> u8 {
        array_cells(self.data)[array_extent(self.data).offset(p)]
    }

    /// All stored material ids, in the row-major order of the stored box.
    pub closed spec fn cells(&self) -> Seq<u8> {
        array_cells(self.data)
    }

    /// The storage covers exactly the stored box of a representable coordinate.
    pub closed spec fn wf(&self) -> bool {
        &&& self.pos.representable()
        &&& array_extent(self.data) == self.pos.region().grown(1)
        &&& array_cells(self.data).len() == self.pos.region().grown(1).volume()
    }

    /// The stored box of a representable coordinate is valid and contains the
    /// chunk's region.
    pub proof fn lemma_extent(at: ChunkLocation)
        requires
            at.representable(),
        ensures
            at.region().grown(1).valid(),
            at.region().grown(1).volume() == 39304,
            at.region().valid(),
            forall|p: Point3| at.region().has(p) ==> at.region().grown(1).has(p),
    {
        assert(34 * 34 * 34 == 39304) by (nonlinear_arith);
        assert(32 * 32 * 32 == 32768) by (nonlinear_arith);
    }

    /// A well-formed chunk sits at a representable coordinate.
    pub proof fn lemma_wf(&self)
        requires
            self.wf(),
        ensures
            self.location().representable(),
    {
    }

    /// A chunk of air at `at`.
    pub fn new(at: ChunkLocation) -> (chunk: Chunk)
        requires
            at.representable(),
        ensures
            chunk.wf(),
            chunk.location() == at,
            forall|p: Point3| chunk.extent().has(p) ==> chunk.voxel(p) == 0,
    {
        proof {
            Chunk::lemma_extent(at);
        }
        let region = at.voxel_region();
        let stored = region.padded(1);
        assert(stored.shape.x * stored.shape.y == 1156) by (nonlinear_arith)
            requires
                stored.shape.x == 34,
                stored.shape.y == 34,
        ;
        let chunk = Chunk { pos: at, data: array_fill(stored, Voxel(0)) };
        assert forall|p: Point3| chunk.extent().has(p) implies chunk.voxel(p) == 0 by {
            stored.lemma_offset_bound(p);
        }
        chunk
    }

    /// The chunk coordinate.
    pub fn pos(&self) -> (at: ChunkLocation)
        ensures
            at == self.location(),
    {
        self.pos
    }

    /// The voxel stored for `p`.
    pub fn get(&self, p: Point3) -> (v: Voxel)
        requires
            self.wf(),
            self.extent().has(p),
        ensures
            v.0 == self.voxel(p),
    {
        proof {
            Chunk::lemma_extent(self.pos);
        }
        array_get(&self.data, p)
    }

    /// The quads that greedy meshing makes of the chunk: for each of the six
    /// face orientations, in the order of `cube_face`, the quads of the exposed
    /// faces of that orientation.
    pub open spec fn quads(&self) -> Seq<Seq<Quad>> {
        greedy_quads_of(self.cells(), self.extent())
    }

    /// What is known of each quad of the chunk: it is at least one voxel wide
    /// and high, it starts and ends in the chunk's own region, and it starts at
    /// a voxel that is not air.
    pub open spec fn quad_in_region(&self, face: Face, quad: Quad) -> bool {
        &&& quad_inside(self.cells(), self.extent(), face, quad)
        &&& self.location().region().has(quad.minimum)
        &&& self.voxel(quad.minimum) != 0
    }

    /// Merges the exposed voxel faces of the chunk into quads, one group for
    /// each face orientation. A face is exposed where the voxel across it is
    /// air; the border of the stored box only serves to tell.
    pub fn greedy_quads(&self) -> (groups: Vec<QuadGroup>)
        requires
            self.wf(),
        ensures
            groups@.len() == 6,
            self.quads().len() == 6,
            forall|i: int|
                0 <= i < 6 ==> (#[trigger] groups@[i]).face == cube_face(i) && groups@[i].quads@
                    == self.quads()[i] && groups@[i].quads@.len() <= 39304,
            forall|i: int, j: int|
                0 <= i < 6 && 0 <= j < groups@[i].quads@.len() ==> self.quad_in_region(
                    cube_face(i),
                    #[trigger] groups@[i].quads@[j],
                ),
            (forall|p: Point3| self.location().region().has(p) ==> self.voxel(p) == 0) ==> forall|
                i: int,
            | 0 <= i < 6 ==> (#[trigger] groups@[i]).quads@.len() == 0,
    {
        proof {
            Chunk::lemma_extent(self.pos);
        }
        let groups = array_greedy_quads(&self.data);
        assert forall|i: int, j: int|
            0 <= i < 6 && 0 <= j < groups@[i].quads@.len() implies self.quad_in_region(
            cube_face(i),
            #[trigger] groups@[i].quads@[j],
        ) by {
            let quad = groups@[i].quads@[j];
            assert(quad_inside(self.cells(), self.extent(), cube_face(i), quad));
        }
        proof {
            if forall|p: Point3| self.location().region().has(p) ==> self.voxel(p) == 0 {
                assert forall|i: int| 0 <= i < 6 implies (#[trigger] groups@[i]).quads@.len()
                    == 0 by {
                    if groups@[i].quads@.len() > 0 {
                        let quad = groups@[i].quads@[0];
                        assert(self.quad_in_region(cube_face(i), quad));
                        assert(self.voxel(quad.minimum) != 0);
                    }
                }
            }
        }
        groups
    }

    /// Stores `v` for `p`; every other voxel stays.
    pub fn set(&mut self, p: Point3, v: Voxel)
        requires
            old(self).wf(),
            old(self).extent().has(p),
        ensures
            final(self).wf(),
            final(self).location() == old(self).location(),
            final(self).voxel(p) == v.0,
            forall|q: Point3|
                old(self).extent().has(q) && q != p ==> final(self).voxel(q) == old(self).voxel(q),
    {
        proof {
            Chunk::lemma_extent(self.pos);
        }
        let ghost stored = self.extent();
        array_set(&mut self.data, p, v);
        proof {
            stored.lemma_offset_bound(p);
            assert forall|q: Point3| stored.has(q) && q != p implies final(self).voxel(q) == old(
                self,
            ).voxel(q) by {
                stored.lemma_offset_bound(q);
                stored.lemma_point_at_of_offset(p);
                stored.lemma_point_at_of_offset(q);
            }
        }
    }
}

impl Clone for Chunk {
    /// A second chunk at the same coordinate with the same voxels.
    fn clone(&self) -> (copy: Chunk)
        ensures
            copy.wf() == self.wf(),
            copy.location() == self.location(),
            forall|p: Point3| copy.voxel(p) == self.voxel(p),
    {
        Chunk { pos: self.pos, data: array_clone(&self.data) }
    }
}

impl Default for Chunk {
    /// A chunk of air at the origin.
    fn default() -> (chunk: Chunk)
        ensures
            chunk.wf(),
            chunk.location() == ChunkLocation(Point3 { x: 0, y: 0, z: 0 }),
            forall|p: Point3| chunk.extent().has(p) ==> chunk.voxel(p) == 0,
    {
        Chunk::new(ChunkLocation(Point3 { x: 0, y: 0, z: 0 }))
    }
}

} // verus!
