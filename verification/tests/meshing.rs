use building_blocks::mesh::{OrientedCubeFace, UnorientedQuad, RIGHT_HANDED_Y_UP_CONFIG};
use building_blocks::prelude::PointN;
use voxel_terrain::blocks::{Block, Blocks, AIR_BLOCK_ID};
use voxel_terrain::chunk::Chunk;
use voxel_terrain::extent::Point3;
use voxel_terrain::location::chunk_location;
use voxel_terrain::mesh::{u_flip_face, Axis, BlockMesh, Face, MeshBuf, Quad, UV_DIVISOR};
use voxel_terrain::rendering::{build_mesh, build_mesh_done, update_chunk, MeshSlot};
use voxel_terrain::voxel::{Voxel, DIRT, STONE, WATER};

fn face_of(outside: &OrientedCubeFace) -> Face {
    Face::from_parts(
        outside.n_sign,
        outside.n.0,
        outside.u.0,
        outside.v.0,
        outside.permutation.sign(),
    )
}

fn block(name: &str) -> Block {
    Block { texture_name: name.to_string(), liquid: false, opaque: true }
}

fn filled(c: [i32; 3], id: u8) -> Chunk {
    let at = chunk_location(c);
    let mut chunk = Chunk::new(at);
    let region = at.voxel_region();
    for i in 0..region.num_points() {
        chunk.set(region.point_of(i), Voxel::new(id));
    }
    chunk
}

#[test]
fn empty_chunk_has_no_quads() {
    let chunk = Chunk::new(chunk_location([0, 0, 0]));
    let groups = chunk.greedy_quads();
    assert_eq!(groups.len(), 6);
    for group in groups.iter() {
        assert!(group.quads.is_empty());
    }
    let mesh = build_mesh(&chunk);
    assert_eq!(mesh.len(), 0);
}

#[test]
fn uniform_chunk_has_one_quad_per_face() {
    for id in [DIRT, STONE, WATER, 255u8] {
        let chunk = filled([1, -1, 2], id);
        let groups = chunk.greedy_quads();
        assert_eq!(groups.len(), 6);
        for (i, group) in groups.iter().enumerate() {
            assert_eq!(group.quads.len(), 1);
            let quad = group.quads[0];
            assert_eq!(quad.width, 32);
            assert_eq!(quad.height, 32);
            let min = Point3::new(32, -32, 64);
            let expected = match i {
                0 | 1 | 2 => min,
                3 => Point3::new(63, -32, 64),
                4 => Point3::new(32, -1, 64),
                _ => Point3::new(32, -32, 95),
            };
            assert_eq!(quad.minimum, expected);
        }
        let mesh = build_mesh(&chunk);
        assert_eq!(mesh.len(), 1);
        assert_eq!(mesh.material(0), id as u32);
        let buffers = mesh.block_mesh(0);
        assert_eq!(buffers.positions.len(), 24);
        assert_eq!(buffers.normals.len(), 24);
        assert_eq!(buffers.tex_coords.len(), 24);
        assert_eq!(buffers.indices.len(), 36);
    }
}

#[test]
fn faces_come_in_the_order_of_the_configuration() {
    let chunk = Chunk::new(chunk_location([0, 0, 0]));
    let groups = chunk.greedy_quads();
    for (i, group) in groups.iter().enumerate() {
        assert_eq!(group.face, face_of(&RIGHT_HANDED_Y_UP_CONFIG.faces[i]));
    }
    assert_eq!(groups[0].face, Face::from_parts(-1, [1, 0, 0], [0, 0, 1], [0, 1, 0], -1));
    assert_eq!(groups[1].face, Face::from_parts(-1, [0, 1, 0], [0, 0, 1], [1, 0, 0], 1));
    assert_eq!(groups[2].face, Face::from_parts(-1, [0, 0, 1], [1, 0, 0], [0, 1, 0], 1));
    assert_eq!(groups[3].face, Face::from_parts(1, [1, 0, 0], [0, 0, 1], [0, 1, 0], -1));
    assert_eq!(groups[4].face, Face::from_parts(1, [0, 1, 0], [0, 0, 1], [1, 0, 0], 1));
    assert_eq!(groups[5].face, Face::from_parts(1, [0, 0, 1], [1, 0, 0], [0, 1, 0], 1));
    assert_eq!(u_flip_face(), Axis::X);
}

#[test]
fn quad_buffers_agree_with_building_blocks() {
    let quads = [
        (Quad::from_parts([3, 4, 5], 2, 7), UnorientedQuad { minimum: PointN([3, 4, 5]), width: 2, height: 7 }),
        (Quad::from_parts([-9, 0, 31], 1, 1), UnorientedQuad { minimum: PointN([-9, 0, 31]), width: 1, height: 1 }),
    ];
    for outside_face in RIGHT_HANDED_Y_UP_CONFIG.faces.iter() {
        let face = face_of(outside_face);
        let mut mesh = BlockMesh::new();
        let mut positions: Vec<[f32; 3]> = Vec::new();
        let mut normals: Vec<[f32; 3]> = Vec::new();
        let mut tex_coords: Vec<[f32; 2]> = Vec::new();
        let mut indices: Vec<u32> = Vec::new();
        for (quad, outside_quad) in quads.iter() {
            let start = positions.len() as u32;
            positions.extend_from_slice(&outside_face.quad_mesh_positions(outside_quad, 1.0));
            normals.extend_from_slice(&outside_face.quad_mesh_normals());
            tex_coords.extend_from_slice(&outside_face.tex_coords(
                RIGHT_HANDED_Y_UP_CONFIG.u_flip_face,
                true,
                outside_quad,
            ));
            indices.extend_from_slice(&outside_face.quad_mesh_indices(start));
            mesh.push_quad(&face, quad, u_flip_face());
        }
        assert_eq!(mesh.indices, indices);
        assert_eq!(mesh.positions.len(), positions.len());
        for (mine, theirs) in mesh.positions.iter().zip(positions.iter()) {
            assert_eq!([mine.x as f32, mine.y as f32, mine.z as f32], *theirs);
        }
        for (mine, theirs) in mesh.normals.iter().zip(normals.iter()) {
            assert_eq!([mine.x as f32, mine.y as f32, mine.z as f32], *theirs);
        }
        assert_eq!(mesh.tex_coords.len(), tex_coords.len());
        for (mine, theirs) in mesh.tex_coords.iter().zip(tex_coords.iter()) {
            assert_eq!([mine.0 as f32, mine.1 as f32], *theirs);
        }
    }
    assert_eq!(UV_DIVISOR, 10);
}

#[test]
fn one_quad_exactly() {
    let face = Face::from_parts(1, [0, 1, 0], [0, 0, 1], [1, 0, 0], 1);
    let quad = Quad::from_parts([10, 20, 30], 3, 2);
    let mut mesh = BlockMesh::default();
    mesh.push_quad(&face, &quad, Axis::X);
    assert_eq!(
        mesh.positions,
        vec![
            Point3::new(10, 21, 30),
            Point3::new(10, 21, 33),
            Point3::new(12, 21, 30),
            Point3::new(12, 21, 33),
        ]
    );
    assert_eq!(mesh.normals, vec![Point3::new(0, 1, 0); 4]);
    assert_eq!(mesh.tex_coords, vec![(0, 2), (3, 2), (0, 0), (3, 0)]);
    assert_eq!(mesh.indices, vec![0, 1, 2, 1, 3, 2]);
    mesh.push_quad(&Face::from_parts(-1, [1, 0, 0], [0, 0, 1], [0, 1, 0], -1), &quad, Axis::X);
    assert_eq!(mesh.positions[4], Point3::new(10, 20, 30));
    assert_eq!(mesh.positions[7], Point3::new(10, 22, 33));
    assert_eq!(mesh.normals[4], Point3::new(-1, 0, 0));
    assert_eq!(&mesh.tex_coords[4..], &[(0, 2), (3, 2), (0, 0), (3, 0)]);
    assert_eq!(&mesh.indices[6..], &[4, 5, 6, 5, 7, 6]);
    let mut flipped = BlockMesh::new();
    flipped.push_quad(&Face::from_parts(1, [1, 0, 0], [0, 0, 1], [0, 1, 0], -1), &quad, Axis::X);
    assert_eq!(flipped.tex_coords, vec![(3, 2), (0, 2), (3, 0), (0, 0)]);
    assert_eq!(flipped.indices, vec![0, 2, 1, 1, 2, 3]);
}

#[test]
fn materials_get_their_own_buffers() {
    let mut chunk = Chunk::new(chunk_location([0, 0, 0]));
    chunk.set(Point3::new(0, 0, 0), Voxel::new(STONE));
    chunk.set(Point3::new(1, 0, 0), Voxel::new(STONE));
    chunk.set(Point3::new(2, 0, 0), Voxel::new(DIRT));
    chunk.set(Point3::new(10, 10, 10), Voxel::new(WATER));
    let mesh = build_mesh(&chunk);
    assert_eq!(mesh.len(), 3);
    let mut quads_of = |id: u32| -> usize {
        for i in 0..mesh.len() {
            if mesh.material(i) == id {
                let buffers = mesh.block_mesh(i);
                assert_eq!(buffers.positions.len() % 4, 0);
                assert_eq!(buffers.indices.len() * 4, buffers.positions.len() * 6);
                for index in buffers.indices.iter() {
                    assert!((*index as usize) < buffers.positions.len());
                }
                return buffers.positions.len() / 4;
            }
        }
        0
    };
    // two stone voxels side by side: merged on four sides, single at the free end
    assert_eq!(quads_of(STONE as u32), 5);
    assert_eq!(quads_of(DIRT as u32), 5);
    assert_eq!(quads_of(WATER as u32), 6);
    assert_eq!(quads_of(AIR_BLOCK_ID), 0);
}

#[test]
fn border_voxels_hide_faces_and_show_none() {
    let mut chunk = filled([0, 0, 0], DIRT);
    let stored = chunk_location([0, 0, 0]).voxel_region().padded(1);
    for i in 0..stored.num_points() {
        let p = stored.point_of(i);
        chunk.set(p, Voxel::new(DIRT));
    }
    let mesh = build_mesh(&chunk);
    assert_eq!(mesh.len(), 0);
}

#[test]
fn add_quad_keeps_materials_in_order_of_appearance() {
    let face = Face::from_parts(-1, [0, 0, 1], [1, 0, 0], [0, 1, 0], 1);
    let quad = Quad::from_parts([0, 0, 0], 1, 1);
    let mut mesh = MeshBuf::default();
    mesh.add_quad(&face, &quad, Axis::X, 5);
    mesh.add_quad(&face, &quad, Axis::X, 2);
    mesh.add_quad(&face, &quad, Axis::X, 5);
    assert_eq!(mesh.len(), 2);
    assert_eq!(mesh.material(0), 5);
    assert_eq!(mesh.material(1), 2);
    assert_eq!(mesh.block_mesh(0).positions.len(), 8);
    assert_eq!(mesh.block_mesh(0).indices, vec![0, 2, 1, 1, 2, 3, 4, 6, 5, 5, 6, 7]);
    assert_eq!(mesh.block_mesh(1).positions.len(), 4);
}

#[test]
fn blocks_are_numbered_from_one() {
    let mut blocks = Blocks::default();
    assert!(blocks.get_block(&AIR_BLOCK_ID).is_none());
    assert!(blocks.get_block(&1).is_none());
    blocks.add_block(block("dirt"));
    blocks.add_block(block("stone"));
    assert!(blocks.get_block(&0).is_none());
    assert_eq!(blocks.get_block(&1).unwrap().texture_name, "dirt");
    assert_eq!(blocks.get_block(&2).unwrap().texture_name, "stone");
    assert!(blocks.get_block(&3).is_none());
    blocks.insert_block(4, block("water"));
    blocks.add_block(block("sand"));
    assert_eq!(blocks.get_block(&4).unwrap().texture_name, "water");
    assert_eq!(blocks.get_block(&5).unwrap().texture_name, "sand");
    assert!(blocks.has_block(&5));
    assert!(!blocks.has_block(&3));
    blocks.insert_block(1, block("grass"));
    assert_eq!(blocks.get_block(&1).unwrap().texture_name, "grass");
    blocks.add_block(block("clay"));
    assert_eq!(blocks.get_block(&2).unwrap().texture_name, "clay");
}

#[test]
fn materials_without_a_block_are_not_drawn() {
    let mut chunk = Chunk::new(chunk_location([0, 0, 0]));
    chunk.set(Point3::new(0, 0, 0), Voxel::new(WATER));
    chunk.set(Point3::new(5, 0, 0), Voxel::new(DIRT));
    chunk.set(Point3::new(9, 0, 0), Voxel::new(STONE));
    let mesh = build_mesh(&chunk);
    let mut blocks = Blocks::new();
    assert!(update_chunk(&mesh, &blocks).is_empty());
    blocks.add_block(block("dirt"));
    blocks.add_block(block("stone"));
    let draws = update_chunk(&mesh, &blocks);
    assert_eq!(draws.len(), 2);
    assert!(draws.contains(&(DIRT as u32)));
    assert!(draws.contains(&(STONE as u32)));
    assert!(!draws.contains(&(WATER as u32)));
    let mut order: Vec<u32> = Vec::new();
    for i in 0..mesh.len() {
        if mesh.material(i) != WATER as u32 {
            order.push(mesh.material(i));
        }
    }
    assert_eq!(draws, order);
}

#[test]
fn a_finished_build_replaces_the_mesh_once() {
    let mut slot = MeshSlot { mesh: None, pending: true };
    assert!(!build_mesh_done(&mut slot, None));
    assert!(slot.pending);
    assert!(slot.mesh.is_none());
    let chunk = filled([0, 0, 0], DIRT);
    assert!(build_mesh_done(&mut slot, Some(build_mesh(&chunk))));
    assert!(!slot.pending);
    assert_eq!(slot.mesh.as_ref().unwrap().len(), 1);
    assert!(!build_mesh_done(&mut slot, None));
    assert_eq!(slot.mesh.as_ref().unwrap().len(), 1);
    assert!(build_mesh_done(&mut slot, Some(MeshBuf::new())));
    assert_eq!(slot.mesh.as_ref().unwrap().len(), 0);
}
