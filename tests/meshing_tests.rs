use std::collections::BTreeSet;

use voxel_core::block::{BlockFace, BlockId, BlockModel, BlockRegistry};
use voxel_core::chunk::{uvec3_to_chunk_index, LocalBlockPosition, CHUNK_SIZE_CUBED};
use voxel_core::greedy::mesh_greedy;
use voxel_core::meshing::{mesh_culled, ChunkMeshData, ChunkMeshInput, ChunkVertex};

fn solid(texture_index: u32) -> BlockModel {
    let f = Some(BlockFace { texture_index });
    BlockModel { pos_x: f, pos_y: f, pos_z: f, neg_x: f, neg_y: f, neg_z: f }
}

fn empty_model() -> BlockModel {
    BlockModel { pos_x: None, pos_y: None, pos_z: None, neg_x: None, neg_y: None, neg_z: None }
}

/// air, stone (texture 7), dirt (texture 9), and a one-sided pane that only
/// has a +X face (texture 4)
fn registry() -> BlockRegistry {
    let mut pane = empty_model();
    pane.pos_x = Some(BlockFace { texture_index: 4 });
    BlockRegistry { models: vec![empty_model(), solid(7), solid(9), pane] }
}

fn idx(x: u32, y: u32, z: u32) -> usize {
    uvec3_to_chunk_index(LocalBlockPosition { x, y, z })
}

fn air() -> Vec<BlockId> {
    vec![BlockId(0); CHUNK_SIZE_CUBED]
}

fn input(blocks: &[BlockId]) -> ChunkMeshInput<'_> {
    ChunkMeshInput { blocks, translation: (0, 0, 0) }
}

fn vertex(x: i64, y: i64, z: i64, u: u32, v: u32, texture_index: u32) -> ChunkVertex {
    ChunkVertex { x, y, z, u, v, texture_index }
}

/// Splits every quad of a mesh into unit faces: (normal axis, normal sign,
/// plane coordinate, the two other coordinates of the cell corner, texture).
fn unit_faces(mesh: &ChunkMeshData) -> BTreeSet<(usize, i64, i64, i64, i64, u32)> {
    let mut out = BTreeSet::new();
    assert_eq!(mesh.vertices.len() % 4, 0);
    for quad in mesh.vertices.chunks(4) {
        let p: Vec<[i64; 3]> = quad.iter().map(|v| [v.x, v.y, v.z]).collect();
        let a = [p[1][0] - p[0][0], p[1][1] - p[0][1], p[1][2] - p[0][2]];
        let b = [p[2][0] - p[0][0], p[2][1] - p[0][1], p[2][2] - p[0][2]];
        let n = [a[1] * b[2] - a[2] * b[1], a[2] * b[0] - a[0] * b[2], a[0] * b[1] - a[1] * b[0]];
        let axis = (0..3).find(|&i| n[i] != 0).expect("degenerate quad");
        let sign = n[axis].signum();
        let (s, t) = ((axis + 1) % 3, (axis + 2) % 3);
        let lo = |k: usize| p.iter().map(|q| q[k]).min().unwrap();
        let hi = |k: usize| p.iter().map(|q| q[k]).max().unwrap();
        for i in lo(s)..hi(s) {
            for j in lo(t)..hi(t) {
                out.insert((axis, sign, p[0][axis], i, j, quad[0].texture_index));
            }
        }
    }
    out
}

fn check_index_buffer(mesh: &ChunkMeshData) {
    assert_eq!(mesh.indices.len(), mesh.vertices.len() / 4 * 6);
    for (k, group) in mesh.indices.chunks(6).enumerate() {
        let b = 4 * k as u32;
        assert_eq!(group, &[b, b + 1, b + 2, b + 2, b + 3, b]);
    }
}

/// A deterministic pseudo-random chunk mixing air, stone, dirt and panes.
fn scattered() -> Vec<BlockId> {
    let mut blocks = air();
    let mut state: u32 = 12345;
    for b in blocks.iter_mut() {
        state = state.wrapping_mul(1103515245).wrapping_add(12345);
        let r = (state >> 16) % 10;
        *b = BlockId(match r {
            0..=4 => 0,
            5..=7 => 1,
            8 => 2,
            _ => 3,
        });
    }
    blocks
}

#[test]
fn air_chunk_has_no_geometry() {
    let reg = registry();
    let blocks = air();
    for mesh in [mesh_culled(&reg, input(&blocks)), mesh_greedy(&reg, input(&blocks))] {
        assert!(mesh.vertices.is_empty());
        assert!(mesh.indices.is_empty());
    }
}

#[test]
fn single_block_culled_faces() {
    let reg = registry();
    let mut blocks = air();
    blocks[idx(1, 2, 3)] = BlockId(1);
    let mesh = mesh_culled(&reg, input(&blocks));
    assert_eq!(mesh.vertices.len(), 24);
    assert_eq!(mesh.indices.len(), 36);
    // the +X face comes first
    assert_eq!(
        &mesh.vertices[0..4],
        &[
            vertex(2, 2, 4, 0, 1, 7),
            vertex(2, 2, 3, 1, 1, 7),
            vertex(2, 3, 3, 1, 0, 7),
            vertex(2, 3, 4, 0, 0, 7),
        ]
    );
    // the -Z face comes last
    assert_eq!(
        &mesh.vertices[20..24],
        &[
            vertex(2, 2, 3, 0, 1, 7),
            vertex(1, 2, 3, 1, 1, 7),
            vertex(1, 3, 3, 1, 0, 7),
            vertex(2, 3, 3, 0, 0, 7),
        ]
    );
    check_index_buffer(&mesh);
}

#[test]
fn consecutive_faces_index_from_running_vertex_count() {
    let reg = registry();
    let mut blocks = air();
    blocks[idx(0, 0, 0)] = BlockId(1);
    blocks[idx(0, 1, 0)] = BlockId(1);
    let mesh = mesh_culled(&reg, input(&blocks));
    assert_eq!(&mesh.indices[0..6], &[0, 1, 2, 2, 3, 0]);
    assert_eq!(&mesh.indices[6..12], &[4, 5, 6, 6, 7, 4]);
    // two cubes stacked on y hide one face each
    assert_eq!(mesh.vertices.len(), 4 * 10);
}

#[test]
fn translation_offsets_every_vertex() {
    let reg = registry();
    let mut blocks = air();
    blocks[idx(0, 0, 0)] = BlockId(2);
    let plain = mesh_culled(&reg, input(&blocks));
    let moved = mesh_culled(&reg, ChunkMeshInput { blocks: &blocks, translation: (32, -64, 96) });
    assert_eq!(plain.vertices.len(), moved.vertices.len());
    for (a, b) in plain.vertices.iter().zip(moved.vertices.iter()) {
        assert_eq!((a.x + 32, a.y - 64, a.z + 96), (b.x, b.y, b.z));
        assert_eq!((a.u, a.v, a.texture_index), (b.u, b.v, b.texture_index));
    }
}

#[test]
fn full_floor_merges_into_one_quad_per_side() {
    let reg = registry();
    let mut blocks = air();
    for z in 0..32 {
        for x in 0..32 {
            blocks[idx(x, 0, z)] = BlockId(1);
        }
    }
    let culled = mesh_culled(&reg, input(&blocks));
    let greedy = mesh_greedy(&reg, input(&blocks));
    assert_eq!(culled.vertices.len(), 4 * (2 * 1024 + 4 * 32));
    assert_eq!(greedy.vertices.len(), 4 * 6);
    check_index_buffer(&greedy);
    assert_eq!(unit_faces(&culled), unit_faces(&greedy));
    // the +Y quad spans the whole floor
    let top: Vec<&[ChunkVertex]> = greedy
        .vertices
        .chunks(4)
        .filter(|q| q.iter().all(|v| v.y == 1))
        .collect();
    assert_eq!(top.len(), 1);
    assert!(top[0].iter().any(|v| v.u == 32 && v.v == 32));
}

#[test]
fn greedy_does_not_merge_different_textures() {
    let reg = registry();
    let mut blocks = air();
    for z in 0..32 {
        for x in 0..32 {
            blocks[idx(x, 0, z)] = BlockId(if x < 16 { 1 } else { 2 });
        }
    }
    let greedy = mesh_greedy(&reg, input(&blocks));
    let top: Vec<&[ChunkVertex]> = greedy
        .vertices
        .chunks(4)
        .filter(|q| q.iter().all(|v| v.y == 1))
        .collect();
    assert_eq!(top.len(), 2);
    for quad in top {
        let tex = quad[0].texture_index;
        let xs: Vec<i64> = quad.iter().map(|v| v.x).collect();
        if tex == 7 {
            assert!(xs.iter().all(|&x| x <= 16));
        } else {
            assert_eq!(tex, 9);
            assert!(xs.iter().all(|&x| x >= 16));
        }
    }
    assert_eq!(unit_faces(&greedy), unit_faces(&mesh_culled(&reg, input(&blocks))));
}

#[test]
fn greedy_skips_occluded_faces() {
    let reg = registry();
    let mut blocks = air();
    // a 2x1 slab at z = 0 with a stone in front of one cell on the +Z side
    blocks[idx(0, 0, 0)] = BlockId(1);
    blocks[idx(1, 0, 0)] = BlockId(1);
    blocks[idx(1, 0, 1)] = BlockId(1);
    let greedy = mesh_greedy(&reg, input(&blocks));
    let faces = unit_faces(&greedy);
    // the +Z face of (1, 0, 0) is hidden, the one of (0, 0, 0) is not
    assert!(faces.contains(&(2, 1, 1, 0, 0, 7)));
    assert!(!faces.contains(&(2, 1, 1, 1, 0, 7)));
    assert_eq!(faces, unit_faces(&mesh_culled(&reg, input(&blocks))));
}

#[test]
fn culled_and_greedy_cover_the_same_surface() {
    let reg = registry();
    let blocks = scattered();
    let culled = mesh_culled(&reg, input(&blocks));
    let greedy = mesh_greedy(&reg, input(&blocks));
    check_index_buffer(&culled);
    check_index_buffer(&greedy);
    assert!(greedy.vertices.len() <= culled.vertices.len());
    assert_eq!(unit_faces(&culled), unit_faces(&greedy));
}

#[test]
fn one_sided_faces_are_covered_once() {
    let reg = registry();
    let mut blocks = air();
    // panes only have a +X face, so every pane face of a row stays visible
    for x in 0..32 {
        for y in 0..4 {
            blocks[idx(x, y, 0)] = BlockId(3);
        }
    }
    let culled = mesh_culled(&reg, input(&blocks));
    let greedy = mesh_greedy(&reg, input(&blocks));
    assert_eq!(culled.vertices.len(), 4 * 32 * 4);
    assert_eq!(unit_faces(&culled), unit_faces(&greedy));
}

#[test]
fn meshing_twice_gives_identical_output() {
    let reg = registry();
    let blocks = scattered();
    let a = mesh_culled(&reg, input(&blocks));
    let b = mesh_culled(&reg, input(&blocks));
    assert_eq!(a.vertices, b.vertices);
    assert_eq!(a.indices, b.indices);
    let c = mesh_greedy(&reg, input(&blocks));
    let d = mesh_greedy(&reg, input(&blocks));
    assert_eq!(c.vertices, d.vertices);
    assert_eq!(c.indices, d.indices);
}

#[test]
fn empty_mesh_has_no_buffers() {
    let m = ChunkMeshData::empty();
    assert!(m.vertices.is_empty() && m.indices.is_empty());
}
