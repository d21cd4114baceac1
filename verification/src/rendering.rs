//! From chunks to what the renderer draws: building the mesh of a chunk, and
//! choosing the materials of a mesh that can be drawn.

use crate::blocks::{Block, BlockId, Blocks};
use crate::chunk::Chunk;
use crate::extent::Point3;
use crate::mesh::{
    cube_face, in_i32, u_flip_face, Axis, BlockMeshView, Face, MeshBuf, MeshBufView, Quad,
};
use vstd::prelude::*;

verus! {

/// The mesh after the quads of one face orientation have been added in order,
/// each to the buffers of the material of its least voxel.
pub open spec fn with_quads(view: MeshBufView, chunk: &Chunk, face: Face, quads: Seq<Quad>) -> MeshBufView
    decreases quads.len(),
{
    if quads.len() == 0 {
        view
    } else {
        let quad = quads.last();
        with_quads(view, chunk, face, quads.drop_last()).with_quad(
            face,
            quad,
            Axis::X,
            chunk.voxel(quad.minimum) as BlockId,
        )
    }
}

/// The mesh after the quads of the first `n` face orientations have been added.
pub open spec fn with_groups(view: MeshBufView, chunk: &Chunk, groups: Seq<Seq<Quad>>, n: nat) -> MeshBufView
    decreases n,
{
    if n == 0 {
        view
    } else {
        with_quads(
            with_groups(view, chunk, groups, (n - 1) as nat),
            chunk,
            cube_face(n - 1),
            groups[n - 1],
        )
    }
}

/// The mesh of a chunk: the quads of its six face orientations, each in the
/// buffers of the material it shows.
pub open spec fn meshed(chunk: &Chunk) -> MeshBufView {
    with_groups(MeshBufView::empty(), chunk, chunk.quads(), 6)
}

/// Whether some voxel of the chunk's own region has material `id`.
pub open spec fn holds_material(chunk: &Chunk, id: BlockId) -> bool {
    exists|p: Point3| chunk.location().region().has(p) && #[trigger] chunk.voxel(p) == id
}

/// Whether every material with buffers is a material other than air that the
/// chunk's own region holds.
pub open spec fn shows_only_its_materials(view: MeshBufView, chunk: &Chunk) -> bool {
    forall|k: int|
        0 <= k < view.materials.len() ==> (#[trigger] view.materials[k]) != 0 && holds_material(
            chunk,
            view.materials[k],
        )
}

/// Adding quads adds four vertices for each to one material and none to the
/// others, so no material has more than four vertices for each quad added.
proof fn lemma_with_quad_count(view: MeshBufView, face: Face, quad: Quad, id: BlockId, bound: int)
    requires
        forall|other: BlockId| (#[trigger] view.mesh(other)).positions.len() <= bound,
    ensures
        forall|other: BlockId|
            (#[trigger] view.with_quad(face, quad, Axis::X, id).mesh(other)).positions.len()
                <= bound + 4,
{
    assert forall|other: BlockId|
        (#[trigger] view.with_quad(face, quad, Axis::X, id).mesh(other)).positions.len() <= bound
            + 4 by {
        assert(view.mesh(other).positions.len() <= bound);
        assert(view.mesh(id).positions.len() <= bound);
    }
}

/// The corners of a quad of a chunk have `i32` coordinates.
proof fn lemma_quad_fits(chunk: &Chunk, i: int, quad: Quad)
    requires
        chunk.wf(),
        0 <= i < 6,
        chunk.quad_in_region(cube_face(i), quad),
    ensures
        cube_face(i).fits(quad),
        cube_face(i).signed(),
{
    chunk.lemma_wf();
    Chunk::lemma_extent(chunk.location());
    let face = cube_face(i);
    assert forall|k: int| 0 <= k < 4 implies in_i32(#[trigger] face.corner(quad, k)) by {
        // One case for each axis that the normal can have.
        if i % 3 == 0 {
        } else if i % 3 == 1 {
        } else {
        }
    }
}

/// Builds the mesh of a chunk: merges its exposed voxel faces into quads and
/// adds each quad to the buffers of the material of its least voxel.
pub fn build_mesh(chunk: &Chunk) -> (mesh_buf: MeshBuf)
    requires
        chunk.wf(),
    ensures
        mesh_buf.wf(),
        mesh_buf@ == meshed(chunk),
        shows_only_its_materials(mesh_buf@, chunk),
        (forall|p: Point3| chunk.location().region().has(p) ==> chunk.voxel(p) == 0)
            ==> mesh_buf@ == MeshBufView::empty(),
{
    let groups = chunk.greedy_quads();
    let mut mesh_buf = MeshBuf::new();
    let ghost all = chunk.quads();
    let mut i: usize = 0;
    while i < 6
        invariant
            i <= 6,
            chunk.wf(),
            all == chunk.quads(),
            all.len() == 6,
            groups@.len() == 6,
            forall|g: int|
                0 <= g < 6 ==> (#[trigger] groups@[g]).face == cube_face(g) && groups@[g].quads@
                    == all[g] && groups@[g].quads@.len() <= 39304,
            forall|g: int, j: int|
                0 <= g < 6 && 0 <= j < groups@[g].quads@.len() ==> chunk.quad_in_region(
                    cube_face(g),
                    #[trigger] groups@[g].quads@[j],
                ),
            mesh_buf.wf(),
            mesh_buf@ == with_groups(MeshBufView::empty(), chunk, all, i as nat),
            shows_only_its_materials(mesh_buf@, chunk),
            forall|id: BlockId|
                (#[trigger] mesh_buf@.mesh(id)).positions.len() <= 4 * (i * 39304),
        decreases 6 - i,
    {
        let group = &groups[i];
        let ghost start = mesh_buf@;
        let mut j: usize = 0;
        assert(group.quads@.take(0) =~= Seq::<Quad>::empty());
        while j < group.quads.len()
            invariant
                i < 6,
                all.len() == 6,
                j <= group.quads@.len(),
                chunk.wf(),
                group.face == cube_face(i as int),
                group.quads@ == all[i as int],
                group.quads@.len() <= 39304,
                forall|k: int|
                    0 <= k < group.quads@.len() ==> chunk.quad_in_region(
                        cube_face(i as int),
                        #[trigger] group.quads@[k],
                    ),
                mesh_buf.wf(),
                mesh_buf@ == with_quads(
                    start,
                    chunk,
                    cube_face(i as int),
                    group.quads@.take(j as int),
                ),
                shows_only_its_materials(mesh_buf@, chunk),
                forall|id: BlockId|
                    (#[trigger] mesh_buf@.mesh(id)).positions.len() <= 4 * (i * 39304 + j),
            decreases group.quads@.len() - j,
        {
            let quad = group.quads[j];
            proof {
                lemma_quad_fits(chunk, i as int, quad);
                chunk.lemma_wf();
                Chunk::lemma_extent(chunk.location());
                assert(chunk.extent().has(quad.minimum));
                assert(group.quads@.take(j as int + 1).drop_last() =~= group.quads@.take(j as int));
                assert(group.quads@.take(j as int + 1).last() == quad);
                lemma_with_quad_count(
                    mesh_buf@,
                    group.face,
                    quad,
                    chunk.voxel(quad.minimum) as BlockId,
                    4 * (i * 39304 + j),
                );
                assert(mesh_buf@.mesh(chunk.voxel(quad.minimum) as BlockId).positions.len() <= 4
                    * (i * 39304 + j));
            }
            let mat = chunk.get(quad.minimum);
            let ghost before = mesh_buf@;
            mesh_buf.add_quad(&group.face, &quad, u_flip_face(), mat.0 as u32);
            proof {
                assert(holds_material(chunk, mat.0 as u32)) by {
                    assert(chunk.location().region().has(quad.minimum));
                    assert(chunk.voxel(quad.minimum) == mat.0 as u32);
                }
                assert forall|k: int| 0 <= k < mesh_buf@.materials.len() implies (
                #[trigger] mesh_buf@.materials[k]) != 0 && holds_material(
                    chunk,
                    mesh_buf@.materials[k],
                ) by {
                    if k < before.materials.len() {
                        assert(mesh_buf@.materials[k] == before.materials[k]);
                    }
                }
            }
            j += 1;
        }
        proof {
            assert(group.quads@.take(j as int) =~= group.quads@);
        }
        i += 1;
    }
    proof {
        if forall|p: Point3| chunk.location().region().has(p) ==> chunk.voxel(p) == 0 {
            if mesh_buf@.materials.len() > 0 {
                let id = mesh_buf@.materials[0];
                assert(holds_material(chunk, id));
            }
            mesh_buf.lemma_wf();
            assert(mesh_buf@.materials =~= Seq::<BlockId>::empty());
            assert forall|id: BlockId| !(#[trigger] mesh_buf@.meshes.contains_key(id)) by {
                if mesh_buf@.meshes.contains_key(id) {
                    assert(mesh_buf@.materials.contains(id));
                }
            }
            assert(mesh_buf@.meshes =~= Map::<BlockId, BlockMeshView>::empty());
        }
    }
    mesh_buf
}

/// The materials among `materials` that have a registered block, in order.
pub open spec fn drawable(materials: Seq<BlockId>, registry: Map<BlockId, Block>) -> Seq<BlockId>
    decreases materials.len(),
{
    if materials.len() == 0 {
        Seq::empty()
    } else {
        let before = drawable(materials.drop_last(), registry);
        if registry.contains_key(materials.last()) {
            before.push(materials.last())
        } else {
            before
        }
    }
}

/// Chooses what to draw of a rebuilt mesh: its materials, in order, that have
/// a registered block. The buffers of a material without a block are passed
/// over.
pub fn update_chunk(mesh_buf: &MeshBuf, blocks: &Blocks) -> (draws: Vec<BlockId>)
    ensures
        draws@ == drawable(mesh_buf@.materials, blocks.registry()),
{
    let mut draws: Vec<BlockId> = Vec::new();
    let n = mesh_buf.len();
    let mut i: usize = 0;
    assert(mesh_buf@.materials.take(0) =~= Seq::<BlockId>::empty());
    while i < n
        invariant
            i <= n,
            n == mesh_buf@.materials.len(),
            draws@ == drawable(mesh_buf@.materials.take(i as int), blocks.registry()),
        decreases n - i,
    {
        let id = mesh_buf.material(i);
        proof {
            assert(mesh_buf@.materials.take(i as int + 1).drop_last() =~= mesh_buf@.materials.take(
                i as int,
            ));
        }
        if blocks.has_block(&id) {
            draws.push(id);
        }
        i += 1;
    }
    proof {
        assert(mesh_buf@.materials.take(n as int) =~= mesh_buf@.materials);
    }
    draws
}

/// Every material chosen for drawing has a block and buffers, and none is
/// chosen twice.
pub proof fn lemma_drawable(materials: Seq<BlockId>, registry: Map<BlockId, Block>)
    requires
        materials.no_duplicates(),
    ensures
        drawable(materials, registry).no_duplicates(),
        forall|id: BlockId| #[trigger]
            drawable(materials, registry).contains(id) <==> materials.contains(id)
                && registry.contains_key(id),
    decreases materials.len(),
{
    let r = drawable(materials, registry);
    if materials.len() > 0 {
        let head = materials.drop_last();
        let last = materials.last();
        let before = drawable(head, registry);
        lemma_drawable(head, registry);
        assert forall|id: BlockId| #[trigger] r.contains(id) implies materials.contains(id)
            && registry.contains_key(id) by {
            let i = choose|i: int| 0 <= i < r.len() && r[i] == id;
            if i < before.len() {
                assert(before[i] == id);
                assert(before.contains(id));
                assert(head.contains(id));
                let j = choose|j: int| 0 <= j < head.len() && head[j] == id;
                assert(materials[j] == id);
            } else {
                assert(materials[materials.len() - 1] == id);
            }
        }
        assert forall|id: BlockId|
            materials.contains(id) && registry.contains_key(id) implies #[trigger] r.contains(
            id,
        ) by {
            let i = choose|i: int| 0 <= i < materials.len() && materials[i] == id;
            if i < materials.len() - 1 {
                assert(head[i] == id);
                assert(head.contains(id));
                assert(before.contains(id));
                let j = choose|j: int| 0 <= j < before.len() && before[j] == id;
                assert(r[j] == id);
            } else {
                assert(r[r.len() - 1] == id);
            }
        }
        if registry.contains_key(last) {
            assert(!head.contains(last)) by {
                if head.contains(last) {
                    let i = choose|i: int| 0 <= i < head.len() && head[i] == last;
                    assert(materials[i] == materials[materials.len() - 1]);
                }
            }
            assert(!before.contains(last));
            assert forall|a: int, b: int| 0 <= a < r.len() && 0 <= b < r.len() && a != b implies r[a]
                != r[b] by {
                if a == before.len() {
                    assert(before[b] == r[b]);
                } else if b == before.len() {
                    assert(before[a] == r[a]);
                } else {
                    assert(before[a] == r[a]);
                    assert(before[b] == r[b]);
                }
            }
        }
    }
}

/// The mesh of a chunk and whether a build of it is in flight.
pub struct MeshSlot {
    /// The mesh in use, if one was ever built.
    pub mesh: Option<MeshBuf>,
    /// Whether a build has been started and its result not yet taken.
    pub pending: bool,
}

/// Takes the result of polling a mesh build once. A finished build hands its
/// mesh over, which replaces the former mesh as a whole, and the build is no
/// longer pending; an unfinished one changes nothing. Returns whether the
/// mesh changed.
pub fn build_mesh_done(slot: &mut MeshSlot, polled: Option<MeshBuf>) -> (changed: bool)
    ensures
        changed == polled is Some,
        polled matches Some(m) ==> final(slot).mesh == Some(m) && !final(slot).pending,
        polled is None ==> *final(slot) == *old(slot),
{
    match polled {
        Some(mesh_buf) => {
            slot.mesh = Some(mesh_buf);
            slot.pending = false;
            true
        },
        None => false,
    }
}

} // verus!
