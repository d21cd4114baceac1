//! The voxel grid of a chunk, stored in a `building_blocks` array.
//!
//! Nothing here is proved: each function below states what the array type of
//! `building_blocks` does, in terms of the box the array covers and the
//! material ids it holds in row-major order.

use crate::extent::{Extent3, Point3};
use crate::mesh::{cube_face, moved, Face, Quad, QuadGroup};
use crate::voxel::Voxel;
use building_blocks::mesh::{greedy_quads, GreedyQuadsBuffer, RIGHT_HANDED_Y_UP_CONFIG};
use building_blocks::prelude::{ExtentN, Get, GetMut, PointN};
use building_blocks::storage::{Array, Channel};
use vstd::prelude::*;

verus! {

/// `building_blocks::storage::Array`, a lattice map stored as a flat array.
#[verifier::external_type_specification]
#[verifier::external_body]
#[verifier::reject_recursive_types(N)]
#[verifier::reject_recursive_types(Chan)]
pub struct ExArray<N, Chan>(Array<N, Chan>);

/// `building_blocks::storage::Channel`, the flat storage of one array channel.
#[verifier::external_type_specification]
#[verifier::external_body]
#[verifier::reject_recursive_types(T)]
#[verifier::reject_recursive_types(Store)]
pub struct ExChannel<T, Store>(Channel<T, Store>);

/// The box of lattice points that a voxel array covers.
pub uninterp spec fn array_extent(a: Array<[i32; 3], Channel<Voxel, Vec<Voxel>>>) -> Extent3;

/// The material ids that a voxel array holds, in the row-major order of its
/// box (`x` fastest, then `y`, then `z`).
pub uninterp spec fn array_cells(a: Array<[i32; 3], Channel<Voxel, Vec<Voxel>>>) -> Seq<u8>;

/// `Array::fill`: a new array over `extent` in which every cell holds `value`.
/// It allocates one cell per point and counts the points in `i32`, multiplying
/// the lengths in the order x, y, z, so the box must be valid and one layer of
/// it must not have more than `i32::MAX` points either.
#[verifier::external_body]
pub(crate) fn array_fill(extent: Extent3, value: Voxel) -> (a: Array<
    [i32; 3],
    Channel<Voxel, Vec<Voxel>>,
>)
    requires
        extent.valid(),
        extent.shape.x * extent.shape.y <= i32::MAX,
    ensures
        array_extent(a) == extent,
        array_cells(a) == Seq::new(extent.volume() as nat, |i: int| value.0),
{
    let minimum = PointN([extent.minimum.x, extent.minimum.y, extent.minimum.z]);
    let shape = PointN([extent.shape.x, extent.shape.y, extent.shape.z]);
    Array::fill(ExtentN::from_min_and_shape(minimum, shape), value)
}

/// `Get<Point3i>::get` of the array: the voxel stored for `p`, found at the
/// row-major offset of `p` in the array's box. The array does not check the
/// offset in optimised builds, so `p` must lie in the box.
#[verifier::external_body]
pub(crate) fn array_get(a: &Array<[i32; 3], Channel<Voxel, Vec<Voxel>>>, p: Point3) -> (v: Voxel)
    requires
        array_extent(*a).valid(),
        array_extent(*a).has(p),
        array_cells(*a).len() == array_extent(*a).volume(),
    ensures
        v.0 == array_cells(*a)[array_extent(*a).offset(p)],
{
    a.get(PointN([p.x, p.y, p.z]))
}

/// `GetMut<Point3i>::get_mut` of the array, written through: the cell of `p`
/// takes `value`, every other cell and the box stay as they were. As with
/// reading, `p` must lie in the box.
#[verifier::external_body]
pub(crate) fn array_set(a: &mut Array<[i32; 3], Channel<Voxel, Vec<Voxel>>>, p: Point3, value: Voxel)
    requires
        array_extent(*old(a)).valid(),
        array_extent(*old(a)).has(p),
        array_cells(*old(a)).len() == array_extent(*old(a)).volume(),
    ensures
        array_extent(*final(a)) == array_extent(*old(a)),
        array_cells(*final(a)) == array_cells(*old(a)).update(
            array_extent(*old(a)).offset(p),
            value.0,
        ),
{
    *a.get_mut(PointN([p.x, p.y, p.z])) = value;
}

/// The quads that greedy meshing makes of a voxel grid: for each of the six
/// face orientations, in the order of `cube_face`, the quads in the order in
/// which they were found.
pub uninterp spec fn greedy_quads_of(cells: Seq<u8>, extent: Extent3) -> Seq<Seq<Quad>>;

/// What holds of every quad that greedy meshing finds in a grid over `extent`:
/// it is at least one voxel wide and high, its least and its greatest voxel lie
/// in the interior of the box (the box less its outermost layer), and its least
/// voxel is not air.
pub open spec fn quad_inside(cells: Seq<u8>, extent: Extent3, face: Face, quad: Quad) -> bool {
    let least = (quad.minimum.x as int, quad.minimum.y as int, quad.minimum.z as int);
    let greatest = moved(moved(least, face.u, quad.width - 1), face.v, quad.height - 1);
    &&& quad.width >= 1
    &&& quad.height >= 1
    &&& extent.grown(-1).has(quad.minimum)
    &&& extent.grown(-1).minimum.x <= greatest.0 < extent.grown(-1).minimum.x + extent.grown(
        -1,
    ).shape.x
    &&& extent.grown(-1).minimum.y <= greatest.1 < extent.grown(-1).minimum.y + extent.grown(
        -1,
    ).shape.y
    &&& extent.grown(-1).minimum.z <= greatest.2 < extent.grown(-1).minimum.z + extent.grown(
        -1,
    ).shape.z
    &&& cells[extent.offset(quad.minimum)] != 0
}

/// `greedy_quads` with the face orientations of `RIGHT_HANDED_Y_UP_CONFIG`, run
/// over the whole array. It reads the neighbours of every interior voxel, so
/// the box must be at least two voxels long each way. The result is six groups,
/// one for each orientation of that configuration in its order; the quads of a
/// group are named by `greedy_quads_of`. Each quad starts at a voxel that the
/// algorithm has not covered before, so a group has no more quads than the box
/// has voxels, and `quad_inside` holds of each.
#[verifier::external_body]
pub(crate) fn array_greedy_quads(a: &Array<[i32; 3], Channel<Voxel, Vec<Voxel>>>) -> (groups: Vec<
    QuadGroup,
>)
    requires
        array_extent(*a).valid(),
        array_cells(*a).len() == array_extent(*a).volume(),
        array_extent(*a).shape.x >= 2,
        array_extent(*a).shape.y >= 2,
        array_extent(*a).shape.z >= 2,
    ensures
        groups@.len() == 6,
        groups@.len() == greedy_quads_of(array_cells(*a), array_extent(*a)).len(),
        forall|i: int|
            0 <= i < 6 ==> (#[trigger] groups@[i]).face == cube_face(i) && groups@[i].quads@
                == greedy_quads_of(array_cells(*a), array_extent(*a))[i] && groups@[i].quads@.len()
                <= array_extent(*a).volume(),
        forall|i: int, j: int|
            0 <= i < 6 && 0 <= j < groups@[i].quads@.len() ==> quad_inside(
                array_cells(*a),
                array_extent(*a),
                cube_face(i),
                #[trigger] groups@[i].quads@[j],
            ),
{
    let extent = *a.extent();
    let mut buffer = GreedyQuadsBuffer::new(extent, RIGHT_HANDED_Y_UP_CONFIG.quad_groups());
    greedy_quads(a, &extent, &mut buffer);
    buffer.quad_groups.iter().map(|g| QuadGroup {
        face: Face::from_parts(g.face.n_sign, g.face.n.0, g.face.u.0, g.face.v.0, g.face.permutation.sign()),
        quads: g.quads.iter().map(|q| Quad::from_parts(q.minimum.0, q.width, q.height)).collect(),
    }).collect()
}

/// `Clone::clone` of the array: a second array over the same box that holds
/// the same voxels.
#[verifier::external_body]
pub(crate) fn array_clone(a: &Array<[i32; 3], Channel<Voxel, Vec<Voxel>>>) -> (b: Array<
    [i32; 3],
    Channel<Voxel, Vec<Voxel>>,
>)
    ensures
        array_extent(b) == array_extent(*a),
        array_cells(b) == array_cells(*a),
{
    a.clone()
}

} // verus!
