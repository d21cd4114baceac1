//! Chunk meshes: quads of merged voxel faces, turned into one vertex and index
//! buffer per material.

use crate::blocks::BlockId;
use crate::extent::Point3;
use vstd::prelude::*;

verus! {

/// Texture coordinates are held in whole texels here; the renderer divides
/// them by this number.
pub const UV_DIVISOR: i32 = 10;

/// A coordinate axis.
#[derive(Clone, Copy, Debug, PartialEq, Eq, Structural)]
pub enum Axis {
    X,
    Y,
    Z,
}

impl Axis {
    /// The unit vector along the axis.
    pub open spec fn vector(self) -> Point3 {
        match self {
            Axis::X => unit(0),
            Axis::Y => unit(1),
            Axis::Z => unit(2),
        }
    }
}

/// The axis whose faces have their texture mirrored along `u`, in a
/// right-handed coordinate system with `y` up.
pub fn u_flip_face() -> (axis: Axis)
    ensures
        axis == Axis::X,
{
    Axis::X
}

/// One of the six orientations of a cube face: the sign of its normal, the
/// axes of its normal `n` and of its two in-plane directions `u` and `v` as
/// unit vectors, and the sign of the permutation `(n, u, v)` of the axes.
#[derive(Clone, Copy, Debug, PartialEq, Eq, Structural)]
pub struct Face {
    pub n_sign: i32,
    pub n: Point3,
    pub u: Point3,
    pub v: Point3,
    pub winding: i32,
}

/// A rectangle of merged voxel faces of one orientation: its least voxel, its
/// width along `u` and its height along `v`.
#[derive(Clone, Copy, Debug, PartialEq, Eq, Structural)]
pub struct Quad {
    pub minimum: Point3,
    pub width: i32,
    pub height: i32,
}

/// The quads of one face orientation.
pub struct QuadGroup {
    pub face: Face,
    pub quads: Vec<Quad>,
}

/// The unit vector of axis 0 (x), 1 (y) or 2 (z).
pub open spec fn unit(axis: int) -> Point3 {
    Point3 {
        x: if axis == 0 {
            1
        } else {
            0
        },
        y: if axis == 1 {
            1
        } else {
            0
        },
        z: if axis == 2 {
            1
        } else {
            0
        },
    }
}

/// The six face orientations of a right-handed coordinate system with `y` up,
/// in the order in which quads are grouped: the faces that look down the x, y
/// and z axes, then the faces that look up them.
pub open spec fn cube_face(i: int) -> Face {
    let n_sign: i32 = if i < 3 {
        -1i32
    } else {
        1i32
    };
    if i % 3 == 0 {
        Face { n_sign, n: unit(0), u: unit(2), v: unit(1), winding: -1i32 }
    } else if i % 3 == 1 {
        Face { n_sign, n: unit(1), u: unit(2), v: unit(0), winding: 1 }
    } else {
        Face { n_sign, n: unit(2), u: unit(0), v: unit(1), winding: 1 }
    }
}

/// The point `p + d * k`, as mathematical integers.
pub open spec fn moved(p: (int, int, int), d: Point3, k: int) -> (int, int, int) {
    (p.0 + d.x * k, p.1 + d.y * k, p.2 + d.z * k)
}

/// Whether a point of mathematical integers has `i32` coordinates.
pub open spec fn in_i32(p: (int, int, int)) -> bool {
    &&& i32::MIN <= p.0 <= i32::MAX
    &&& i32::MIN <= p.1 <= i32::MAX
    &&& i32::MIN <= p.2 <= i32::MAX
}

/// A point of mathematical integers as a lattice point.
pub open spec fn narrowed(p: (int, int, int)) -> Point3 {
    Point3 { x: p.0 as i32, y: p.1 as i32, z: p.2 as i32 }
}

impl Quad {
    /// The quad with the given least voxel, width and height.
    pub fn from_parts(minimum: [i32; 3], width: i32, height: i32) -> (quad: Quad)
        ensures
            quad == (Quad {
                minimum: Point3 { x: minimum[0], y: minimum[1], z: minimum[2] },
                width,
                height,
            }),
    {
        Quad { minimum: Point3::from_array(minimum), width, height }
    }
}

impl Face {
    /// The face with the given normal sign, axes and winding.
    pub fn from_parts(n_sign: i32, n: [i32; 3], u: [i32; 3], v: [i32; 3], winding: i32) -> (face:
        Face)
        ensures
            face == (Face {
                n_sign,
                n: Point3 { x: n[0], y: n[1], z: n[2] },
                u: Point3 { x: u[0], y: u[1], z: u[2] },
                v: Point3 { x: v[0], y: v[1], z: v[2] },
                winding,
            }),
    {
        Face {
            n_sign,
            n: Point3::from_array(n),
            u: Point3::from_array(u),
            v: Point3::from_array(v),
            winding,
        }
    }

    /// The corner of the quad with the least coordinates: the least voxel's
    /// own corner for a face that looks down its axis, one step along the
    /// normal for a face that looks up it.
    pub open spec fn base(self, quad: Quad) -> (int, int, int) {
        let m = (quad.minimum.x as int, quad.minimum.y as int, quad.minimum.z as int);
        if self.n_sign > 0 {
            moved(m, self.n, 1)
        } else {
            m
        }
    }

    /// Corner `k` of the quad, counted 0 to 3: the base corner, the corner one
    /// width along `u`, the corner one height along `v`, and the far corner.
    pub open spec fn corner(self, quad: Quad, k: int) -> (int, int, int) {
        let across = if k == 1 || k == 3 {
            quad.width as int
        } else {
            0
        };
        let up = if k == 2 || k == 3 {
            quad.height as int
        } else {
            0
        };
        moved(moved(self.base(quad), self.u, across), self.v, up)
    }

    /// Whether all four corners of the quad have `i32` coordinates.
    pub open spec fn fits(self, quad: Quad) -> bool {
        forall|k: int| 0 <= k < 4 ==> in_i32(#[trigger] self.corner(quad, k))
    }

    /// The four vertex positions of the quad, in corner order.
    pub open spec fn positions(self, quad: Quad) -> Seq<Point3> {
        Seq::new(4, |k: int| narrowed(self.corner(quad, k)))
    }

    /// The outward normal of the face.
    pub open spec fn normal(self) -> (int, int, int) {
        moved((0, 0, 0), self.n, self.n_sign as int)
    }

    /// The normals of the four vertices: the face normal, four times.
    pub open spec fn normals(self) -> Seq<Point3> {
        Seq::new(4, |k: int| narrowed(self.normal()))
    }

    /// Whether texture coordinates run backwards along `u` on this face: on
    /// the faces across `u_flip_face` that look up it, and on the other faces
    /// that look down their axis.
    pub open spec fn flips_u(self, u_flip_face: Axis) -> bool {
        if self.n_sign < 0 {
            self.n != u_flip_face.vector()
        } else {
            self.n == u_flip_face.vector()
        }
    }

    /// The texture coordinates of the four vertices, in corner order and in
    /// whole texels: the quad's width and height span the texture that many
    /// times, with `v` always running downwards.
    pub open spec fn tex_coords(self, u_flip_face: Axis, quad: Quad) -> Seq<(i32, i32)> {
        let w = quad.width;
        let h = quad.height;
        if self.flips_u(u_flip_face) {
            seq![(w, h), (0i32, h), (w, 0i32), (0i32, 0i32)]
        } else {
            seq![(0i32, h), (w, h), (0i32, 0i32), (w, 0i32)]
        }
    }

    /// Whether the two triangles of a quad are wound counter-clockwise.
    pub open spec fn counter_clockwise(self) -> bool {
        self.n_sign * self.winding > 0
    }

    /// The six vertex indices of the two triangles of a quad whose first vertex
    /// has index `start`.
    pub open spec fn indices(self, start: int) -> Seq<u32> {
        if self.counter_clockwise() {
            seq![
                start as u32,
                (start + 1) as u32,
                (start + 2) as u32,
                (start + 1) as u32,
                (start + 3) as u32,
                (start + 2) as u32,
            ]
        } else {
            seq![
                start as u32,
                (start + 2) as u32,
                (start + 1) as u32,
                (start + 1) as u32,
                (start + 2) as u32,
                (start + 3) as u32,
            ]
        }
    }

    /// Whether sign and winding are each -1 or 1.
    pub open spec fn signed(self) -> bool {
        &&& (self.n_sign == 1 || self.n_sign == -1)
        &&& (self.winding == 1 || self.winding == -1)
    }
}

/// The vertex and index buffers of one material of a chunk. Positions and
/// normals are lattice points; texture coordinates are in whole texels.
#[derive(Debug)]
pub struct BlockMesh {
    pub positions: Vec<Point3>,
    pub normals: Vec<Point3>,
    pub tex_coords: Vec<(i32, i32)>,
    pub indices: Vec<u32>,
}

/// The buffers of a material, as sequences.
pub struct BlockMeshView {
    pub positions: Seq<Point3>,
    pub normals: Seq<Point3>,
    pub tex_coords: Seq<(i32, i32)>,
    pub indices: Seq<u32>,
}

impl BlockMeshView {
    /// Buffers without vertices.
    pub open spec fn empty() -> BlockMeshView {
        BlockMeshView {
            positions: Seq::empty(),
            normals: Seq::empty(),
            tex_coords: Seq::empty(),
            indices: Seq::empty(),
        }
    }

    /// The buffers with one more quad at their end: four vertices, and the six
    /// indices of its two triangles.
    pub open spec fn with_quad(self, face: Face, quad: Quad, u_flip_face: Axis) -> BlockMeshView {
        BlockMeshView {
            positions: self.positions + face.positions(quad),
            normals: self.normals + face.normals(),
            tex_coords: self.tex_coords + face.tex_coords(u_flip_face, quad),
            indices: self.indices + face.indices(self.positions.len() as int),
        }
    }
}

impl View for BlockMesh {
    type V = BlockMeshView;

    open spec fn view(&self) -> BlockMeshView {
        BlockMeshView {
            positions: self.positions@,
            normals: self.normals@,
            tex_coords: self.tex_coords@,
            indices: self.indices@,
        }
    }
}

impl BlockMesh {
    /// Buffers without vertices.
    pub fn new() -> (m: BlockMesh)
        ensures
            m@ == BlockMeshView::empty(),
    {
        BlockMesh {
            positions: Vec::new(),
            normals: Vec::new(),
            tex_coords: Vec::new(),
            indices: Vec::new(),
        }
    }

    /// Appends one quad: its four vertices and the indices of its two
    /// triangles.
    pub fn push_quad(&mut self, face: &Face, quad: &Quad, u_flip_face: Axis)
        requires
            face.signed(),
            face.fits(*quad),
            old(self)@.positions.len() + 4 <= u32::MAX,
        ensures
            final(self)@ == old(self)@.with_quad(*face, *quad, u_flip_face),
    {
        let start: u32 = self.positions.len() as u32;
        let ghost before = self@;
        assert(in_i32(face.corner(*quad, 0)));
        assert(in_i32(face.corner(*quad, 1)));
        assert(in_i32(face.corner(*quad, 2)));
        assert(in_i32(face.corner(*quad, 3)));
        let step: i64 = if face.n_sign > 0 {
            1
        } else {
            0
        };
        let bx: i64 = quad.minimum.x as i64 + face.n.x as i64 * step;
        let by: i64 = quad.minimum.y as i64 + face.n.y as i64 * step;
        let bz: i64 = quad.minimum.z as i64 + face.n.z as i64 * step;
        let w: i64 = quad.width as i64;
        let h: i64 = quad.height as i64;
        assert(-0x4000_0000_0000_0000 <= face.u.x * w <= 0x4000_0000_0000_0000
            && -0x4000_0000_0000_0000 <= face.u.y * w <= 0x4000_0000_0000_0000
            && -0x4000_0000_0000_0000 <= face.u.z * w <= 0x4000_0000_0000_0000
            && -0x4000_0000_0000_0000 <= face.v.x * h <= 0x4000_0000_0000_0000
            && -0x4000_0000_0000_0000 <= face.v.y * h <= 0x4000_0000_0000_0000
            && -0x4000_0000_0000_0000 <= face.v.z * h <= 0x4000_0000_0000_0000)
            by (nonlinear_arith)
            requires
                -0x8000_0000 <= w <= 0x7fff_ffff,
                -0x8000_0000 <= h <= 0x7fff_ffff,
                -0x8000_0000 <= face.u.x <= 0x7fff_ffff,
                -0x8000_0000 <= face.u.y <= 0x7fff_ffff,
                -0x8000_0000 <= face.u.z <= 0x7fff_ffff,
                -0x8000_0000 <= face.v.x <= 0x7fff_ffff,
                -0x8000_0000 <= face.v.y <= 0x7fff_ffff,
                -0x8000_0000 <= face.v.z <= 0x7fff_ffff,
        ;
        let ux: i64 = face.u.x as i64 * w;
        let uy: i64 = face.u.y as i64 * w;
        let uz: i64 = face.u.z as i64 * w;
        let vx: i64 = face.v.x as i64 * h;
        let vy: i64 = face.v.y as i64 * h;
        let vz: i64 = face.v.z as i64 * h;
        assert(face.corner(*quad, 0) == (bx as int, by as int, bz as int));
        assert(face.corner(*quad, 1) == (bx + ux, by + uy, bz + uz));
        assert(face.corner(*quad, 2) == (bx + vx, by + vy, bz + vz));
        assert(face.corner(*quad, 3) == (bx + ux + vx, by + uy + vy, bz + uz + vz));
        self.positions.push(Point3 { x: bx as i32, y: by as i32, z: bz as i32 });
        self.positions.push(
            Point3 { x: (bx + ux) as i32, y: (by + uy) as i32, z: (bz + uz) as i32 },
        );
        self.positions.push(
            Point3 { x: (bx + vx) as i32, y: (by + vy) as i32, z: (bz + vz) as i32 },
        );
        self.positions.push(
            Point3 {
                x: (bx + ux + vx) as i32,
                y: (by + uy + vy) as i32,
                z: (bz + uz + vz) as i32,
            },
        );
        assert(self.positions@ =~= before.positions + face.positions(*quad));

        assert(face.n.x * face.n_sign == if face.n_sign == 1 {
            face.n.x as int
        } else {
            -face.n.x
        } && face.n.y * face.n_sign == if face.n_sign == 1 {
            face.n.y as int
        } else {
            -face.n.y
        } && face.n.z * face.n_sign == if face.n_sign == 1 {
            face.n.z as int
        } else {
            -face.n.z
        }) by (nonlinear_arith)
            requires
                face.n_sign == 1 || face.n_sign == -1,
        ;
        let sign: i64 = face.n_sign as i64;
        let normal = Point3 {
            x: (face.n.x as i64 * sign) as i32,
            y: (face.n.y as i64 * sign) as i32,
            z: (face.n.z as i64 * sign) as i32,
        };
        self.normals.push(normal);
        self.normals.push(normal);
        self.normals.push(normal);
        self.normals.push(normal);
        assert(self.normals@ =~= before.normals + face.normals());

        let along = match u_flip_face {
            Axis::X => face.n.x == 1 && face.n.y == 0 && face.n.z == 0,
            Axis::Y => face.n.x == 0 && face.n.y == 1 && face.n.z == 0,
            Axis::Z => face.n.x == 0 && face.n.y == 0 && face.n.z == 1,
        };
        let flip_u = if face.n_sign < 0 {
            !along
        } else {
            along
        };
        if flip_u {
            self.tex_coords.push((quad.width, quad.height));
            self.tex_coords.push((0, quad.height));
            self.tex_coords.push((quad.width, 0));
            self.tex_coords.push((0, 0));
        } else {
            self.tex_coords.push((0, quad.height));
            self.tex_coords.push((quad.width, quad.height));
            self.tex_coords.push((0, 0));
            self.tex_coords.push((quad.width, 0));
        }
        assert(self.tex_coords@ =~= before.tex_coords + face.tex_coords(u_flip_face, *quad));

        assert(face.n_sign * face.winding == 1 || face.n_sign * face.winding == -1)
            by (nonlinear_arith)
            requires
                face.n_sign == 1 || face.n_sign == -1,
                face.winding == 1 || face.winding == -1,
        ;
        let counter_clockwise = (face.n_sign == 1) == (face.winding == 1);
        assert(counter_clockwise == face.counter_clockwise()) by (nonlinear_arith)
            requires
                face.n_sign == 1 || face.n_sign == -1,
                face.winding == 1 || face.winding == -1,
                counter_clockwise == ((face.n_sign == 1) == (face.winding == 1)),
                face.counter_clockwise() == (face.n_sign * face.winding > 0),
        ;
        if counter_clockwise {
            self.indices.push(start);
            self.indices.push(start + 1);
            self.indices.push(start + 2);
            self.indices.push(start + 1);
            self.indices.push(start + 3);
            self.indices.push(start + 2);
        } else {
            self.indices.push(start);
            self.indices.push(start + 2);
            self.indices.push(start + 1);
            self.indices.push(start + 1);
            self.indices.push(start + 2);
            self.indices.push(start + 3);
        }
        assert(self.indices@ =~= before.indices + face.indices(before.positions.len() as int));
    }
}

impl Default for BlockMesh {
    fn default() -> (m: BlockMesh)
        ensures
            m@ == BlockMeshView::empty(),
    {
        BlockMesh::new()
    }
}

/// The mesh of a chunk as mathematics: the materials that have a buffer, in
/// the order in which they first appeared, and the buffers of each.
pub struct MeshBufView {
    pub materials: Seq<BlockId>,
    pub meshes: Map<BlockId, BlockMeshView>,
}

impl MeshBufView {
    /// A mesh without buffers.
    pub open spec fn empty() -> MeshBufView {
        MeshBufView { materials: Seq::empty(), meshes: Map::empty() }
    }

    /// The buffers of a material; without vertices where it has none.
    pub open spec fn mesh(self, id: BlockId) -> BlockMeshView {
        if self.meshes.contains_key(id) {
            self.meshes[id]
        } else {
            BlockMeshView::empty()
        }
    }

    /// The mesh with one more quad in the buffers of material `id`. A material
    /// that had no buffers yet becomes the last of the materials.
    pub open spec fn with_quad(self, face: Face, quad: Quad, u_flip_face: Axis, id: BlockId) -> MeshBufView {
        MeshBufView {
            materials: if self.materials.contains(id) {
                self.materials
            } else {
                self.materials.push(id)
            },
            meshes: self.meshes.insert(id, self.mesh(id).with_quad(face, quad, u_flip_face)),
        }
    }
}

/// The mesh of one chunk: vertex and index buffers for each material that
/// shows a face.
pub struct MeshBuf {
    data: Vec<(BlockId, BlockMesh)>,
}

impl View for MeshBuf {
    type V = MeshBufView;

    closed spec fn view(&self) -> MeshBufView {
        let materials = Seq::new(self.data@.len(), |i: int| self.data@[i].0);
        MeshBufView {
            materials,
            meshes: Map::new(
                |id: BlockId| materials.contains(id),
                |id: BlockId| self.data@[materials.index_of(id)].1@,
            ),
        }
    }
}

impl MeshBuf {
    /// No material has two buffers.
    pub closed spec fn wf(&self) -> bool {
        Seq::new(self.data@.len(), |i: int| self.data@[i].0).no_duplicates()
    }

    /// In a well-formed mesh the materials are distinct, and exactly they have
    /// buffers.
    pub proof fn lemma_wf(&self)
        requires
            self.wf(),
        ensures
            self@.materials.no_duplicates(),
            forall|id: BlockId| #[trigger]
                self@.meshes.contains_key(id) <==> self@.materials.contains(id),
    {
    }

    proof fn lemma_slot(&self, i: int)
        requires
            self.wf(),
            0 <= i < self.data@.len(),
        ensures
            self@.materials[i] == self.data@[i].0,
            self@.materials.contains(self.data@[i].0),
            self@.materials.index_of(self.data@[i].0) == i,
            self@.mesh(self.data@[i].0) == self.data@[i].1@,
    {
        let materials = self@.materials;
        assert(materials[i] == self.data@[i].0);
        let j = materials.index_of(self.data@[i].0);
        assert(0 <= j < materials.len() && materials[j] == self.data@[i].0);
    }

    /// A mesh without buffers.
    pub fn new() -> (m: MeshBuf)
        ensures
            m.wf(),
            m@ == MeshBufView::empty(),
    {
        let m = MeshBuf { data: Vec::new() };
        assert(m@.materials =~= Seq::<BlockId>::empty());
        assert(m@.meshes =~= Map::<BlockId, BlockMeshView>::empty());
        m
    }

    /// The number of materials that have buffers.
    pub fn len(&self) -> (n: usize)
        ensures
            n == self@.materials.len(),
    {
        self.data.len()
    }

    /// The `i`-th material, in order of first appearance.
    pub fn material(&self, i: usize) -> (id: BlockId)
        requires
            i < self@.materials.len(),
        ensures
            id == self@.materials[i as int],
    {
        self.data[i].0
    }

    /// The buffers of the `i`-th material.
    pub fn block_mesh(&self, i: usize) -> (mesh: &BlockMesh)
        requires
            self.wf(),
            i < self@.materials.len(),
        ensures
            mesh@ == self@.mesh(self@.materials[i as int]),
    {
        proof {
            self.lemma_slot(i as int);
        }
        &self.data[i].1
    }

    fn slot_of(&self, id: BlockId) -> (r: Option<usize>)
        requires
            self.wf(),
        ensures
            match r {
                Some(i) => i < self.data@.len() && self.data@[i as int].0 == id,
                None => !self@.materials.contains(id),
            },
    {
        let mut i: usize = 0;
        while i < self.data.len()
            invariant
                i <= self.data@.len(),
                forall|j: int| 0 <= j < i ==> self.data@[j].0 != id,
            decreases self.data@.len() - i,
        {
            if self.data[i].0 == id {
                return Some(i);
            }
            i += 1;
        }
        assert(!self@.materials.contains(id)) by {
            if self@.materials.contains(id) {
                let j = choose|j: int| 0 <= j < self@.materials.len() && self@.materials[j] == id;
                assert(self.data@[j].0 == id);
            }
        }
        None
    }

    /// Appends a quad to the buffers of material `block_id`: its four vertices
    /// with normals and texture coordinates, and the indices of its two
    /// triangles, counted from the vertices that the material had before.
    pub fn add_quad(&mut self, face: &Face, quad: &Quad, u_flip_face: Axis, block_id: BlockId)
        requires
            old(self).wf(),
            face.signed(),
            face.fits(*quad),
            old(self)@.mesh(block_id).positions.len() + 4 <= u32::MAX,
        ensures
            final(self).wf(),
            final(self)@ == old(self)@.with_quad(*face, *quad, u_flip_face, block_id),
    {
        let ghost before = *self;
        match self.slot_of(block_id) {
            Some(i) => {
                proof {
                    self.lemma_slot(i as int);
                }
                let (id, mut mesh) = self.data.remove(i);
                mesh.push_quad(face, quad, u_flip_face);
                self.data.insert(i, (id, mesh));
                proof {
                    assert(self.data@.len() == before.data@.len());
                    assert forall|j: int| 0 <= j < self.data@.len() implies self.data@[j].0
                        == before.data@[j].0 by {}
                    assert(self@.materials =~= before@.materials);
                    assert forall|other: BlockId| self@.materials.contains(other) implies #[trigger]
                        self@.meshes[other] == before@.with_quad(
                        *face,
                        *quad,
                        u_flip_face,
                        block_id,
                    ).meshes[other] by {
                        let j = before@.materials.index_of(other);
                        assert(0 <= j < before@.materials.len() && before@.materials[j] == other);
                        before.lemma_slot(j);
                        if other != block_id {
                            assert(self.data@[j] == before.data@[j]);
                        }
                    }
                    assert(self@.meshes =~= before@.with_quad(
                        *face,
                        *quad,
                        u_flip_face,
                        block_id,
                    ).meshes);
                }
            },
            None => {
                let mut mesh = BlockMesh::new();
                mesh.push_quad(face, quad, u_flip_face);
                self.data.push((block_id, mesh));
                proof {
                    assert(self@.materials =~= before@.materials.push(block_id));
                    assert forall|a: int, b: int|
                        0 <= a < self@.materials.len() && 0 <= b < self@.materials.len() && a
                            != b implies self@.materials[a] != self@.materials[b] by {
                        if a < before@.materials.len() {
                            assert(before@.materials[a] == self@.materials[a]);
                        }
                        if b < before@.materials.len() {
                            assert(before@.materials[b] == self@.materials[b]);
                        }
                    }
                    let last = self.data@.len() - 1;
                    assert forall|other: BlockId| self@.materials.contains(other) implies #[trigger]
                        self@.meshes[other] == before@.with_quad(
                        *face,
                        *quad,
                        u_flip_face,
                        block_id,
                    ).meshes[other] by {
                        let j = self@.materials.index_of(other);
                        assert(0 <= j < self@.materials.len() && self@.materials[j] == other);
                        self.lemma_slot(j);
                        if other != block_id {
                            assert(j < last);
                            assert(before@.materials[j] == other);
                            before.lemma_slot(j);
                        } else {
                            assert(self@.materials[last] == block_id);
                        }
                    }
                    assert forall|other: BlockId|
                        self@.materials.contains(other) <==> before@.with_quad(
                            *face,
                            *quad,
                            u_flip_face,
                            block_id,
                        ).meshes.contains_key(other) by {
                        if before@.materials.contains(other) {
                            let j = choose|j: int|
                                0 <= j < before@.materials.len() && before@.materials[j] == other;
                            assert(self@.materials[j] == other);
                        }
                        if other == block_id {
                            assert(self@.materials[last] == block_id);
                        }
                    }
                    assert(self@.meshes =~= before@.with_quad(
                        *face,
                        *quad,
                        u_flip_face,
                        block_id,
                    ).meshes);
                }
            },
        }
    }
}

impl Default for MeshBuf {
    fn default() -> (m: MeshBuf)
        ensures
            m.wf(),
            m@ == MeshBufView::empty(),
    {
        MeshBuf::new()
    }
}

} // verus!
