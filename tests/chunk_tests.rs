use voxel_core::block::{can_merge_faces, BlockFace, BlockId, BlockModel, BlockRegistry};
use voxel_core::chunk::{
    uvec3_to_chunk_index, Chunk, ChunkBlockStorage, ChunkHit, ChunkPosition, GridOffset,
    LocalBlockPosition, RaymarchState, RaymarchStep, VisibilityGraph, CHUNK_SIZE_CUBED,
};
use voxel_core::face::FaceDir;

fn solid(texture_index: u32) -> BlockModel {
    let f = Some(BlockFace { texture_index });
    BlockModel { pos_x: f, pos_y: f, pos_z: f, neg_x: f, neg_y: f, neg_z: f }
}

fn empty_model() -> BlockModel {
    BlockModel { pos_x: None, pos_y: None, pos_z: None, neg_x: None, neg_y: None, neg_z: None }
}

fn registry() -> BlockRegistry {
    BlockRegistry { models: vec![empty_model(), solid(7), solid(9)] }
}

fn air() -> Vec<BlockId> {
    vec![BlockId(0); CHUNK_SIZE_CUBED]
}

fn pos(x: u32, y: u32, z: u32) -> LocalBlockPosition {
    LocalBlockPosition { x, y, z }
}

const ALL_OPEN: VisibilityGraph = VisibilityGraph {
    pos_x: false,
    pos_y: false,
    pos_z: false,
    neg_x: false,
    neg_y: false,
    neg_z: false,
};

#[test]
fn index_formula_is_x_fastest() {
    assert_eq!(uvec3_to_chunk_index(pos(0, 0, 0)), 0);
    assert_eq!(uvec3_to_chunk_index(pos(1, 2, 3)), 1 + 32 * 2 + 1024 * 3);
    assert_eq!(uvec3_to_chunk_index(pos(31, 31, 31)), CHUNK_SIZE_CUBED - 1);
}

#[test]
fn storage_get_and_set() {
    let mut s = ChunkBlockStorage::new(air());
    assert_eq!(s.get_block(pos(3, 4, 5)), BlockId(0));
    s.set_block(pos(3, 4, 5), BlockId(2));
    assert_eq!(s.get_block(pos(3, 4, 5)), BlockId(2));
    assert_eq!(s.as_slice()[3 + 32 * 4 + 1024 * 5], BlockId(2));
    assert_eq!(s.get_block(pos(4, 4, 5)), BlockId(0));
}

#[test]
fn uniform_opaque_chunk_is_opaque_on_all_sides() {
    let reg = registry();
    let blocks = vec![BlockId(1); CHUNK_SIZE_CUBED];
    let g = VisibilityGraph::compute(&reg, &blocks);
    for dir in [FaceDir::PosX, FaceDir::PosY, FaceDir::PosZ, FaceDir::NegX, FaceDir::NegY, FaceDir::NegZ] {
        assert!(g.is_opaque(dir));
    }
    let chunk = Chunk::new(ChunkPosition { x: 1, y: 2, z: 3 }, blocks, &reg);
    assert_eq!(chunk.visibility_graph(), g);
    assert_eq!(chunk.position(), ChunkPosition { x: 1, y: 2, z: 3 });
}

#[test]
fn air_chunk_is_open_on_all_sides() {
    let reg = registry();
    let g = VisibilityGraph::compute(&reg, &air());
    assert_eq!(g, ALL_OPEN);
}

#[test]
fn one_gap_opens_only_its_side() {
    let reg = registry();
    let mut blocks = vec![BlockId(1); CHUNK_SIZE_CUBED];
    // a hole on the +X boundary plane (x = 31)
    blocks[uvec3_to_chunk_index(pos(31, 10, 20))] = BlockId(0);
    let g = VisibilityGraph::compute(&reg, &blocks);
    assert!(!g.pos_x);
    assert!(g.pos_y && g.pos_z && g.neg_x && g.neg_y && g.neg_z);
}

#[test]
fn set_block_rederives_visibility() {
    let reg = registry();
    let mut chunk = Chunk::new(ChunkPosition { x: 0, y: 0, z: 0 }, vec![BlockId(1); CHUNK_SIZE_CUBED], &reg);
    assert!(chunk.visibility_graph().neg_y);
    chunk.set_block(pos(7, 0, 7), BlockId(0), &reg);
    assert_eq!(chunk.get_block(pos(7, 0, 7)), BlockId(0));
    assert!(!chunk.visibility_graph().neg_y);
    assert!(chunk.visibility_graph().pos_y);
    assert_eq!(chunk.get_block_storage().get_block(pos(7, 0, 7)), BlockId(0));
}

#[test]
fn registry_treats_air_and_unknown_ids_as_empty() {
    let reg = BlockRegistry { models: vec![solid(1), solid(2)] };
    assert_eq!(reg.face_of(BlockId(0), FaceDir::PosX), None);
    assert_eq!(reg.face_of(BlockId(1), FaceDir::NegZ), Some(BlockFace { texture_index: 2 }));
    assert_eq!(reg.face_of(BlockId(5), FaceDir::PosY), None);
}

#[test]
fn merge_needs_two_equal_present_faces() {
    let a = Some(BlockFace { texture_index: 3 });
    let b = Some(BlockFace { texture_index: 4 });
    assert!(can_merge_faces(a, a));
    assert!(!can_merge_faces(a, b));
    assert!(!can_merge_faces(a, None));
    assert!(!can_merge_faces(None, None));
}

/// Feeds the cells a ray samples to the chunk until it decides.
fn march(chunk: &Chunk, cells: &[(i64, i64, i64)], previous_chunk_pos: Option<ChunkPosition>) -> Option<ChunkHit> {
    let mut state = RaymarchState::new();
    for &cell in cells {
        match chunk.raymarch_step(state, cell, previous_chunk_pos) {
            RaymarchStep::Continue(s) => state = s,
            RaymarchStep::Hit(hit) => return Some(hit),
            RaymarchStep::Exit => return None,
        }
    }
    None
}

#[test]
fn ray_through_air_leaves_the_chunk() {
    let reg = registry();
    let chunk = Chunk::new(ChunkPosition { x: 0, y: 0, z: 0 }, air(), &reg);
    let cells: Vec<(i64, i64, i64)> = (0..=32).map(|z| (0, 0, z)).collect();
    let mut state = RaymarchState::new();
    for &cell in &cells[..32] {
        match chunk.raymarch_step(state, cell, None) {
            RaymarchStep::Continue(s) => state = s,
            other => panic!("unexpected {:?}", other),
        }
    }
    assert_eq!(chunk.raymarch_step(state, cells[32], None), RaymarchStep::Exit);
    assert_eq!(march(&chunk, &cells, None), None);
}

#[test]
fn ray_hits_single_block_from_outside() {
    let reg = registry();
    let mut blocks = air();
    blocks[uvec3_to_chunk_index(pos(5, 5, 5))] = BlockId(1);
    let chunk = Chunk::new(ChunkPosition { x: 0, y: 0, z: 0 }, blocks, &reg);
    let cells: Vec<(i64, i64, i64)> = (-10..=5).map(|z| (5, 5, z)).collect();
    let hit = march(&chunk, &cells, None).expect("hit");
    assert_eq!(hit.local_hit_pos, pos(5, 5, 5));
    assert_eq!(hit.hit_normal, Some(GridOffset { x: 0, y: 0, z: -1 }));
}

#[test]
fn first_cell_hit_takes_normal_from_previous_chunk() {
    let reg = registry();
    let mut blocks = air();
    blocks[uvec3_to_chunk_index(pos(0, 4, 4))] = BlockId(2);
    let chunk = Chunk::new(ChunkPosition { x: 3, y: 0, z: 0 }, blocks, &reg);
    let hit = march(&chunk, &[(0, 4, 4)], Some(ChunkPosition { x: 2, y: 0, z: 0 })).expect("hit");
    assert_eq!(hit.local_hit_pos, pos(0, 4, 4));
    assert_eq!(hit.hit_normal, Some(GridOffset { x: -1, y: 0, z: 0 }));
    let hit = march(&chunk, &[(0, 4, 4)], None).expect("hit");
    assert_eq!(hit.hit_normal, None);
}

#[test]
fn ray_that_never_enters_decides_nothing() {
    let reg = registry();
    let chunk = Chunk::new(ChunkPosition { x: 0, y: 0, z: 0 }, air(), &reg);
    assert_eq!(
        chunk.raymarch_step(RaymarchState::new(), (-1, 0, 0), None),
        RaymarchStep::Continue(RaymarchState::new())
    );
}
