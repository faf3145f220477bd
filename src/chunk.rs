use vstd::prelude::*;

use crate::block::{BlockId, BlockRegistry, AIR};
use crate::face::{FaceDir, CHUNK_SIZE};

verus! {

/// Number of cells in one layer of a chunk.
pub const CHUNK_SIZE_SQUARED: usize = 1024;

/// Number of cells in a chunk.
pub const CHUNK_SIZE_CUBED: usize = 32768;

/// Whether (x, y, z) lies inside a chunk.
pub open spec fn in_chunk(x: int, y: int, z: int) -> bool {
    0 <= x < CHUNK_SIZE && 0 <= y < CHUNK_SIZE && 0 <= z < CHUNK_SIZE
}

/// Linear index of the cell (x, y, z): x varies fastest, then y, then z.
pub open spec fn cell_index(x: int, y: int, z: int) -> int {
    x + 32 * y + 1024 * z
}

/// The block at (x, y, z) of a chunk's block array.
pub open spec fn block_at(blocks: Seq<BlockId>, x: int, y: int, z: int) -> BlockId {
    blocks[cell_index(x, y, z)]
}

/// The block at tangent position (u, v) and depth `d` relative to `dir`.
pub open spec fn block_at_uvd(blocks: Seq<BlockId>, dir: FaceDir, u: int, v: int, d: int) -> BlockId {
    let (x, y, z) = dir.spec_rotate(u, v, d);
    block_at(blocks, x, y, z)
}

/// Position of a block inside a chunk.
#[derive(Clone, Copy, Debug, PartialEq, Eq, Structural)]
pub struct LocalBlockPosition {
    pub x: u32,
    pub y: u32,
    pub z: u32,
}

impl LocalBlockPosition {
    pub open spec fn in_bounds(self) -> bool {
        in_chunk(self.x as int, self.y as int, self.z as int)
    }

    pub open spec fn index(self) -> int {
        cell_index(self.x as int, self.y as int, self.z as int)
    }
}

/// Position of a chunk in the grid of chunks.
#[derive(Clone, Copy, Debug, PartialEq, Eq, Structural)]
pub struct ChunkPosition {
    pub x: i32,
    pub y: i32,
    pub z: i32,
}

/// Linear index of an in-chunk position in a chunk's block array.
pub fn uvec3_to_chunk_index(pos: LocalBlockPosition) -> (r: usize)
    requires
        pos.in_bounds(),
    ensures
        r as int == pos.index(),
        r < CHUNK_SIZE_CUBED,
{
    (1024 * pos.z + 32 * pos.y + pos.x) as usize
}

/// The blocks of one chunk, stored linearly.
#[derive(Debug)]
pub struct ChunkBlockStorage {
    blocks: Vec<BlockId>,
}

impl ChunkBlockStorage {
    pub closed spec fn view(&self) -> Seq<BlockId> {
        self.blocks@
    }

    pub open spec fn wf(&self) -> bool {
        self@.len() == CHUNK_SIZE_CUBED
    }

    /// Takes ownership of a full block array, ordered by z, then y, then x.
    pub fn new(blocks: Vec<BlockId>) -> (r: Self)
        requires
            blocks@.len() == CHUNK_SIZE_CUBED,
        ensures
            r@ == blocks@,
            r.wf(),
    {
        ChunkBlockStorage { blocks }
    }

    /// The block at `pos`.
    pub fn get_block(&self, pos: LocalBlockPosition) -> (r: BlockId)
        requires
            self.wf(),
            pos.in_bounds(),
        ensures
            r == self@[pos.index()],
    {
        self.blocks[uvec3_to_chunk_index(pos)]
    }

    /// Replaces the block at `pos`.
    pub fn set_block(&mut self, pos: LocalBlockPosition, new_id: BlockId)
        requires
            old(self).wf(),
            pos.in_bounds(),
        ensures
            final(self)@ == old(self)@.update(pos.index(), new_id),
            final(self).wf(),
    {
        let i = uvec3_to_chunk_index(pos);
        self.blocks.set(i, new_id);
    }

    /// The whole block array.
    pub fn as_slice(&self) -> (r: &[BlockId])
        ensures
            r@ == self@,
    {
        self.blocks.as_slice()
    }
}

/// Whether every cell on the boundary plane that `dir` faces has a face in
/// direction `dir`.
pub open spec fn boundary_opaque(reg: &BlockRegistry, blocks: Seq<BlockId>, dir: FaceDir) -> bool {
    forall|a: int, b: int|
        0 <= a < CHUNK_SIZE && 0 <= b < CHUNK_SIZE ==> reg.spec_face_of(#[trigger] block_at_uvd(blocks, dir, a, b, dir.spec_layer_depth(0)), dir) is Some
}

/// For each face direction, whether the chunk's boundary plane on that side
/// is fully opaque.
#[derive(Clone, Copy, Debug, PartialEq, Eq, Structural)]
pub struct VisibilityGraph {
    pub pos_x: bool,
    pub pos_y: bool,
    pub pos_z: bool,
    pub neg_x: bool,
    pub neg_y: bool,
    pub neg_z: bool,
}

impl VisibilityGraph {
    pub open spec fn spec_is_opaque(self, dir: FaceDir) -> bool {
        match dir {
            FaceDir::PosX => self.pos_x,
            FaceDir::PosY => self.pos_y,
            FaceDir::PosZ => self.pos_z,
            FaceDir::NegX => self.neg_x,
            FaceDir::NegY => self.neg_y,
            FaceDir::NegZ => self.neg_z,
        }
    }

    /// The graph that `compute` derives from a block array.
    pub open spec fn spec_compute(reg: &BlockRegistry, blocks: Seq<BlockId>) -> VisibilityGraph {
        VisibilityGraph {
            pos_x: boundary_opaque(reg, blocks, FaceDir::PosX),
            pos_y: boundary_opaque(reg, blocks, FaceDir::PosY),
            pos_z: boundary_opaque(reg, blocks, FaceDir::PosZ),
            neg_x: boundary_opaque(reg, blocks, FaceDir::NegX),
            neg_y: boundary_opaque(reg, blocks, FaceDir::NegY),
            neg_z: boundary_opaque(reg, blocks, FaceDir::NegZ),
        }
    }

    /// Whether the boundary plane in direction `dir` is fully opaque.
    pub fn is_opaque(&self, dir: FaceDir) -> (r: bool)
        ensures
            r == self.spec_is_opaque(dir),
    {
        match dir {
            FaceDir::PosX => self.pos_x,
            FaceDir::PosY => self.pos_y,
            FaceDir::PosZ => self.pos_z,
            FaceDir::NegX => self.neg_x,
            FaceDir::NegY => self.neg_y,
            FaceDir::NegZ => self.neg_z,
        }
    }

    /// Derives the graph from a chunk's block array.
    pub fn compute(reg: &BlockRegistry, blocks: &[BlockId]) -> (r: VisibilityGraph)
        requires
            blocks@.len() == CHUNK_SIZE_CUBED,
        ensures
            r == Self::spec_compute(reg, blocks@),
    {
        VisibilityGraph {
            pos_x: boundary_is_opaque(reg, blocks, FaceDir::PosX),
            pos_y: boundary_is_opaque(reg, blocks, FaceDir::PosY),
            pos_z: boundary_is_opaque(reg, blocks, FaceDir::PosZ),
            neg_x: boundary_is_opaque(reg, blocks, FaceDir::NegX),
            neg_y: boundary_is_opaque(reg, blocks, FaceDir::NegY),
            neg_z: boundary_is_opaque(reg, blocks, FaceDir::NegZ),
        }
    }
}

/// A chunk filled with one block type that has a face in every direction is
/// opaque on all six sides.
pub proof fn lemma_uniform_opaque(reg: &BlockRegistry, blocks: Seq<BlockId>, id: BlockId)
    requires
        blocks.len() == CHUNK_SIZE_CUBED,
        forall|i: int| 0 <= i < blocks.len() ==> #[trigger] blocks[i] == id,
        forall|dir: FaceDir| #[trigger] reg.spec_face_of(id, dir) is Some,
    ensures
        VisibilityGraph::spec_compute(reg, blocks) == (VisibilityGraph {
            pos_x: true,
            pos_y: true,
            pos_z: true,
            neg_x: true,
            neg_y: true,
            neg_z: true,
        }),
{
    assert forall|dir: FaceDir| boundary_opaque(reg, blocks, dir) by {
        assert forall|a: int, b: int| 0 <= a < CHUNK_SIZE && 0 <= b < CHUNK_SIZE implies reg.spec_face_of(
            #[trigger] block_at_uvd(blocks, dir, a, b, dir.spec_layer_depth(0)),
            dir,
        ) is Some by {
            let (x, y, z) = dir.spec_rotate(a, b, dir.spec_layer_depth(0));
            assert(in_chunk(x, y, z));
            assert(blocks[cell_index(x, y, z)] == id);
        }
    }
}

/// Scans the boundary plane that `dir` faces.
fn boundary_is_opaque(reg: &BlockRegistry, blocks: &[BlockId], dir: FaceDir) -> (r: bool)
    requires
        blocks@.len() == CHUNK_SIZE_CUBED,
    ensures
        r == boundary_opaque(reg, blocks@, dir),
{
    let depth = dir.layer_depth(0);
    let mut a: u32 = 0;
    while a < CHUNK_SIZE
        invariant
            a <= CHUNK_SIZE,
            depth as int == dir.spec_layer_depth(0),
            blocks@.len() == CHUNK_SIZE_CUBED,
            forall|a2: int, b2: int|
                0 <= a2 < a && 0 <= b2 < CHUNK_SIZE ==> reg.spec_face_of(
                    #[trigger] block_at_uvd(blocks@, dir, a2, b2, dir.spec_layer_depth(0)),
                    dir,
                ) is Some,
        decreases CHUNK_SIZE - a,
    {
        let mut b: u32 = 0;
        while b < CHUNK_SIZE
            invariant
                a < CHUNK_SIZE,
                b <= CHUNK_SIZE,
                depth as int == dir.spec_layer_depth(0),
                blocks@.len() == CHUNK_SIZE_CUBED,
                forall|a2: int, b2: int|
                    0 <= a2 < a && 0 <= b2 < CHUNK_SIZE ==> reg.spec_face_of(
                        #[trigger] block_at_uvd(blocks@, dir, a2, b2, dir.spec_layer_depth(0)),
                        dir,
                    ) is Some,
                forall|b2: int|
                    0 <= b2 < b ==> reg.spec_face_of(
                        #[trigger] block_at_uvd(blocks@, dir, a as int, b2, dir.spec_layer_depth(0)),
                        dir,
                    ) is Some,
            decreases CHUNK_SIZE - b,
        {
            let (x, y, z) = dir.rotate(a, b, depth);
            let pos = LocalBlockPosition { x, y, z };
            let id = blocks[uvec3_to_chunk_index(pos)];
            if reg.face_of(id, dir).is_none() {
                assert(block_at_uvd(blocks@, dir, a as int, b as int, dir.spec_layer_depth(0)) == id);
                return false;
            }
            b = b + 1;
        }
        a = a + 1;
    }
    true
}

/// Outcome of examining one sample point of a ray marching through a chunk.
#[derive(Clone, Copy, Debug, PartialEq, Eq, Structural)]
pub enum RaymarchStep {
    /// No decision yet: march on from the given state.
    Continue(RaymarchState),
    /// The ray hit a block.
    Hit(ChunkHit),
    /// The ray left the chunk without hitting a block.
    Exit,
}

/// What a ray march remembers between sample points.
#[derive(Clone, Copy, Debug, PartialEq, Eq, Structural)]
pub struct RaymarchState {
    /// The last sampled cell inside the chunk, if the ray has entered it.
    pub previous_block_pos: Option<LocalBlockPosition>,
}

impl RaymarchState {
    /// The state before the first sample.
    pub fn new() -> (r: Self)
        ensures
            r.previous_block_pos is None,
    {
        RaymarchState { previous_block_pos: None }
    }
}

/// A signed offset between two grid positions.
#[derive(Clone, Copy, Debug, PartialEq, Eq, Structural)]
pub struct GridOffset {
    pub x: i64,
    pub y: i64,
    pub z: i64,
}

/// A block hit by a ray, with the normal of the face through which it was
/// entered when known.
#[derive(Clone, Copy, Debug, PartialEq, Eq, Structural)]
pub struct ChunkHit {
    pub local_hit_pos: LocalBlockPosition,
    pub hit_normal: Option<GridOffset>,
}

/// A chunk: its position, its blocks, and the visibility graph derived from
/// them.
#[derive(Debug)]
pub struct Chunk {
    pos: ChunkPosition,
    blocks: ChunkBlockStorage,
    visibility_graph: VisibilityGraph,
}

impl Chunk {
    pub closed spec fn view(&self) -> Seq<BlockId> {
        self.blocks@
    }

    pub closed spec fn spec_position(&self) -> ChunkPosition {
        self.pos
    }

    pub closed spec fn spec_visibility_graph(&self) -> VisibilityGraph {
        self.visibility_graph
    }

    pub closed spec fn wf(&self) -> bool {
        self.blocks.wf()
    }

    /// Builds a chunk from its full block array, ordered by z, then y, then x,
    /// and derives its visibility graph.
    pub fn new(pos: ChunkPosition, blocks: Vec<BlockId>, reg: &BlockRegistry) -> (r: Self)
        requires
            blocks@.len() == CHUNK_SIZE_CUBED,
        ensures
            r.wf(),
            r@ == blocks@,
            r.spec_position() == pos,
            r.spec_visibility_graph() == VisibilityGraph::spec_compute(reg, blocks@),
    {
        let visibility_graph = VisibilityGraph::compute(reg, blocks.as_slice());
        Chunk { pos, blocks: ChunkBlockStorage::new(blocks), visibility_graph }
    }

    /// The underlying block storage.
    pub fn get_block_storage(&self) -> (r: &ChunkBlockStorage)
        requires
            self.wf(),
        ensures
            r@ == self@,
            r.wf(),
    {
        &self.blocks
    }

    /// The block at `pos`.
    pub fn get_block(&self, pos: LocalBlockPosition) -> (r: BlockId)
        requires
            self.wf(),
            pos.in_bounds(),
        ensures
            r == self@[pos.index()],
    {
        self.blocks.get_block(pos)
    }

    /// Replaces the block at `pos` and derives the visibility graph again.
    pub fn set_block(&mut self, pos: LocalBlockPosition, new_id: BlockId, reg: &BlockRegistry)
        requires
            old(self).wf(),
            pos.in_bounds(),
        ensures
            final(self).wf(),
            final(self)@ == old(self)@.update(pos.index(), new_id),
            final(self).spec_position() == old(self).spec_position(),
            final(self).spec_visibility_graph() == VisibilityGraph::spec_compute(
                reg,
                final(self)@,
            ),
    {
        self.blocks.set_block(pos, new_id);
        self.visibility_graph = VisibilityGraph::compute(reg, self.blocks.as_slice());
    }

    /// This chunk's position.
    pub fn position(&self) -> (r: ChunkPosition)
        ensures
            r == self.spec_position(),
    {
        self.pos
    }

    /// This chunk's visibility graph.
    pub fn visibility_graph(&self) -> (r: VisibilityGraph)
        ensures
            r == self.spec_visibility_graph(),
    {
        self.visibility_graph
    }

    /// The outcome that `raymarch_step` decides for a sample in `cell`.
    pub open spec fn spec_raymarch_step(
        &self,
        state: RaymarchState,
        cell: (i64, i64, i64),
        previous_chunk_pos: Option<ChunkPosition>,
    ) -> RaymarchStep {
        let (x, y, z) = (cell.0 as int, cell.1 as int, cell.2 as int);
        if !in_chunk(x, y, z) {
            if state.previous_block_pos is Some {
                RaymarchStep::Exit
            } else {
                RaymarchStep::Continue(state)
            }
        } else {
            let pos = LocalBlockPosition { x: x as u32, y: y as u32, z: z as u32 };
            if self@[pos.index()].0 != AIR {
                RaymarchStep::Hit(
                    ChunkHit {
                        local_hit_pos: pos,
                        hit_normal: match state.previous_block_pos {
                            Some(p) => Some(
                                GridOffset {
                                    x: (p.x - x) as i64,
                                    y: (p.y - y) as i64,
                                    z: (p.z - z) as i64,
                                },
                            ),
                            None => match previous_chunk_pos {
                                Some(c) => Some(
                                    GridOffset {
                                        x: (c.x - self.spec_position().x) as i64,
                                        y: (c.y - self.spec_position().y) as i64,
                                        z: (c.z - self.spec_position().z) as i64,
                                    },
                                ),
                                None => None,
                            },
                        },
                    },
                )
            } else {
                RaymarchStep::Continue(RaymarchState { previous_block_pos: Some(pos) })
            }
        }
    }

    /// Decides what a ray does at one sample point, given the cell (in this
    /// chunk's local coordinates) that contains it. Samples outside the chunk
    /// before the ray has entered it are passed over; a sample outside after
    /// it has entered means the ray left. On a non-air block the ray hits;
    /// the normal points to the previously sampled cell, or, when none was
    /// sampled here, to the chunk the ray came from.
    pub fn raymarch_step(
        &self,
        state: RaymarchState,
        cell: (i64, i64, i64),
        previous_chunk_pos: Option<ChunkPosition>,
    ) -> (r: RaymarchStep)
        requires
            self.wf(),
        ensures
            r == self.spec_raymarch_step(state, cell, previous_chunk_pos),
    {
        let (x, y, z) = cell;
        if x < 0 || y < 0 || z < 0 || x >= CHUNK_SIZE as i64 || y >= CHUNK_SIZE as i64 || z
            >= CHUNK_SIZE as i64 {
            if state.previous_block_pos.is_some() {
                return RaymarchStep::Exit;
            } else {
                return RaymarchStep::Continue(state);
            }
        }
        let pos = LocalBlockPosition { x: x as u32, y: y as u32, z: z as u32 };
        if self.get_block(pos).0 != AIR {
            let hit_normal = match state.previous_block_pos {
                Some(p) => Some(GridOffset { x: p.x as i64 - x, y: p.y as i64 - y, z: p.z as i64 - z }),
                None => match previous_chunk_pos {
                    Some(c) => Some(
                        GridOffset {
                            x: c.x as i64 - self.pos.x as i64,
                            y: c.y as i64 - self.pos.y as i64,
                            z: c.z as i64 - self.pos.z as i64,
                        },
                    ),
                    None => None,
                },
            };
            RaymarchStep::Hit(ChunkHit { local_hit_pos: pos, hit_normal })
        } else {
            RaymarchStep::Continue(RaymarchState { previous_block_pos: Some(pos) })
        }
    }
}

} // verus!
