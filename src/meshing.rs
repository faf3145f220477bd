//! Mesh buffers, the visible surface of a chunk, and culled meshing.

use vstd::prelude::*;

use crate::block::{BlockFace, BlockId, BlockRegistry};
use crate::chunk::{block_at, in_chunk, uvec3_to_chunk_index, LocalBlockPosition, CHUNK_SIZE_CUBED};
use crate::face::{FaceDir, CHUNK_SIZE};

verus! {

/// A vertex of a chunk mesh: a corner position, its texture coordinates
/// (counted in cells) and the texture of the face it belongs to.
#[derive(Clone, Copy, Debug, PartialEq, Eq, Structural)]
pub struct ChunkVertex {
    pub x: i64,
    pub y: i64,
    pub z: i64,
    pub u: u32,
    pub v: u32,
    pub texture_index: u32,
}

/// Vertex and triangle index buffers of a chunk mesh.
pub struct ChunkMeshData {
    pub vertices: Vec<ChunkVertex>,
    pub indices: Vec<u32>,
}

impl ChunkMeshData {
    /// A mesh without vertices or indices.
    pub fn empty() -> (r: Self)
        ensures
            r.vertices@.len() == 0,
            r.indices@.len() == 0,
    {
        ChunkMeshData { vertices: Vec::new(), indices: Vec::new() }
    }
}

/// What a mesh generator reads: a chunk's block array, ordered by z, then y,
/// then x, and the offset to add to every vertex position.
pub struct ChunkMeshInput<'a> {
    pub blocks: &'a [BlockId],
    pub translation: (i32, i32, i32),
}

/// A rectangle of faces pointing in direction `dir`, at depth `d`, covering
/// tangent positions `u .. u + w` and `v .. v + h`.
pub struct Quad {
    pub dir: FaceDir,
    pub u: int,
    pub v: int,
    pub d: int,
    pub w: int,
    pub h: int,
    pub texture_index: u32,
}

/// Index of tangent position (u, v) within one layer.
pub open spec fn lidx(u: int, v: int) -> int {
    u + 32 * v
}

/// Vertex `i` of quad `q` under translation `t`.
pub open spec fn quad_vertex(q: Quad, t: (i32, i32, i32), i: int) -> ChunkVertex {
    let (ox, oy, oz) = q.dir.spec_rotate(q.u, q.v, q.d);
    let (cx, cy, cz) = q.dir.spec_corner(i, q.w, q.h);
    ChunkVertex {
        x: (t.0 + ox + cx) as i64,
        y: (t.1 + oy + cy) as i64,
        z: (t.2 + oz + cz) as i64,
        u: (if i == 1 || i == 2 {
            q.w
        } else {
            0
        }) as u32,
        v: (if i == 0 || i == 1 {
            q.h
        } else {
            0
        }) as u32,
        texture_index: q.texture_index,
    }
}

/// The four vertices of a quad, anticlockwise from bottom left.
pub open spec fn quad_vertices(q: Quad, t: (i32, i32, i32)) -> Seq<ChunkVertex> {
    seq![quad_vertex(q, t, 0), quad_vertex(q, t, 1), quad_vertex(q, t, 2), quad_vertex(q, t, 3)]
}

/// The six indices of the two triangles of a quad whose first vertex is at `base`.
pub open spec fn quad_indices(base: int) -> Seq<u32> {
    seq![
        base as u32,
        (base + 1) as u32,
        (base + 2) as u32,
        (base + 2) as u32,
        (base + 3) as u32,
        base as u32,
    ]
}

/// The vertex buffer of a sequence of quads.
pub open spec fn mesh_vertices(qs: Seq<Quad>, t: (i32, i32, i32)) -> Seq<ChunkVertex>
    decreases qs.len(),
{
    if qs.len() == 0 {
        seq![]
    } else {
        mesh_vertices(qs.drop_last(), t) + quad_vertices(qs.last(), t)
    }
}

/// The index buffer of `n` quads.
pub open spec fn mesh_indices(n: nat) -> Seq<u32>
    decreases n,
{
    if n == 0 {
        seq![]
    } else {
        mesh_indices((n - 1) as nat) + quad_indices(4 * (n - 1))
    }
}

/// Whether `m` holds exactly the buffers of the quads `qs`.
pub open spec fn mesh_of(m: &ChunkMeshData, qs: Seq<Quad>, t: (i32, i32, i32)) -> bool {
    m.vertices@ == mesh_vertices(qs, t) && m.indices@ == mesh_indices(qs.len())
}

/// Whether the neighbour of (x, y, z) in direction `dir` lets the face in
/// that direction be seen: it lies outside the chunk or has no face towards
/// (x, y, z).
pub open spec fn exposed(
    reg: &BlockRegistry,
    blocks: Seq<BlockId>,
    dir: FaceDir,
    x: int,
    y: int,
    z: int,
) -> bool {
    let (dx, dy, dz) = dir.normal();
    !in_chunk(x + dx, y + dy, z + dz) || reg.spec_face_of(
        block_at(blocks, x + dx, y + dy, z + dz),
        dir.spec_opposite(),
    ) is None
}

/// The face in direction `dir` of the cell at tangent position (u, v) and
/// depth `d`, when the cell is in the chunk and the face is exposed.
pub open spec fn visible_face(
    reg: &BlockRegistry,
    blocks: Seq<BlockId>,
    dir: FaceDir,
    u: int,
    v: int,
    d: int,
) -> Option<BlockFace> {
    let (x, y, z) = dir.spec_rotate(u, v, d);
    if in_chunk(x, y, z) && exposed(reg, blocks, dir, x, y, z) {
        reg.spec_face_of(block_at(blocks, x, y, z), dir)
    } else {
        None
    }
}

/// The unit quad of the cell face at (u, v, d), if it is visible.
pub open spec fn cell_quad(
    reg: &BlockRegistry,
    blocks: Seq<BlockId>,
    dir: FaceDir,
    u: int,
    v: int,
    d: int,
) -> Seq<Quad> {
    match visible_face(reg, blocks, dir, u, v, d) {
        Some(f) => seq![Quad { dir, u, v, d, w: 1, h: 1, texture_index: f.texture_index }],
        None => seq![],
    }
}

/// Culled quads of the first `k` layers of column (u, v), swept from the
/// side `dir` faces.
pub open spec fn culled_column(
    reg: &BlockRegistry,
    blocks: Seq<BlockId>,
    dir: FaceDir,
    u: int,
    v: int,
    k: int,
) -> Seq<Quad>
    decreases k,
{
    if k <= 0 {
        seq![]
    } else {
        culled_column(reg, blocks, dir, u, v, k - 1) + cell_quad(
            reg,
            blocks,
            dir,
            u,
            v,
            dir.spec_layer_depth(k - 1),
        )
    }
}

/// Culled quads of columns (u, 0) .. (u, v - 1).
pub open spec fn culled_row(
    reg: &BlockRegistry,
    blocks: Seq<BlockId>,
    dir: FaceDir,
    u: int,
    v: int,
) -> Seq<Quad>
    decreases v,
{
    if v <= 0 {
        seq![]
    } else {
        culled_row(reg, blocks, dir, u, v - 1) + culled_column(reg, blocks, dir, u, v - 1, 32)
    }
}

/// Culled quads of all columns with first tangent coordinate below `u`.
pub open spec fn culled_slab(reg: &BlockRegistry, blocks: Seq<BlockId>, dir: FaceDir, u: int) -> Seq<
    Quad,
>
    decreases u,
{
    if u <= 0 {
        seq![]
    } else {
        culled_slab(reg, blocks, dir, u - 1) + culled_row(reg, blocks, dir, u - 1, 32)
    }
}

/// Culled quads of one direction.
pub open spec fn culled_dir(reg: &BlockRegistry, blocks: Seq<BlockId>, dir: FaceDir) -> Seq<Quad> {
    culled_slab(reg, blocks, dir, 32)
}

/// The quads that culled meshing emits, direction by direction.
pub open spec fn culled_quads(reg: &BlockRegistry, blocks: Seq<BlockId>) -> Seq<Quad> {
    culled_dir(reg, blocks, FaceDir::PosX) + culled_dir(reg, blocks, FaceDir::PosY) + culled_dir(
        reg,
        blocks,
        FaceDir::PosZ,
    ) + culled_dir(reg, blocks, FaceDir::NegX) + culled_dir(reg, blocks, FaceDir::NegY)
        + culled_dir(reg, blocks, FaceDir::NegZ)
}

pub(crate) proof fn lemma_mesh_vertices_len(qs: Seq<Quad>, t: (i32, i32, i32))
    ensures
        mesh_vertices(qs, t).len() == 4 * qs.len(),
    decreases qs.len(),
{
    if qs.len() > 0 {
        lemma_mesh_vertices_len(qs.drop_last(), t);
    }
}

pub(crate) proof fn lemma_mesh_push(qs: Seq<Quad>, q: Quad, t: (i32, i32, i32))
    ensures
        mesh_vertices(qs.push(q), t) == mesh_vertices(qs, t) + quad_vertices(q, t),
        mesh_indices(qs.push(q).len()) == mesh_indices(qs.len()) + quad_indices(4 * qs.len() as int),
{
    assert(qs.push(q).drop_last() =~= qs);
}

/// Appends quad `q` to `dst`: four vertices, then the six indices of its two
/// triangles, counted from the first new vertex.
pub(crate) fn add_face(
    dst: &mut ChunkMeshData,
    dir: FaceDir,
    u: u32,
    v: u32,
    d: u32,
    w: u32,
    h: u32,
    texture_index: u32,
    translation: (i32, i32, i32),
    Ghost(qs): Ghost<Seq<Quad>>,
)
    requires
        mesh_of(old(dst), qs, translation),
        qs.len() < 6 * CHUNK_SIZE_CUBED,
        u < CHUNK_SIZE,
        v < CHUNK_SIZE,
        d < CHUNK_SIZE,
        w <= CHUNK_SIZE,
        h <= CHUNK_SIZE,
    ensures
        mesh_of(
            final(dst),
            qs.push(
                Quad {
                    dir,
                    u: u as int,
                    v: v as int,
                    d: d as int,
                    w: w as int,
                    h: h as int,
                    texture_index,
                },
            ),
            translation,
        ),
{
    let ghost q = Quad {
        dir,
        u: u as int,
        v: v as int,
        d: d as int,
        w: w as int,
        h: h as int,
        texture_index,
    };
    proof {
        lemma_mesh_vertices_len(qs, translation);
        lemma_mesh_push(qs, q, translation);
    }
    let first_index = dst.vertices.len() as u32;
    let (ox, oy, oz) = dir.rotate(u, v, d);
    let ghost old_vertices = dst.vertices@;
    let mut i: usize = 0;
    while i < 4
        invariant
            i <= 4,
            dst.indices@ == old(dst).indices@,
            dst.vertices@ == old_vertices + quad_vertices(q, translation).take(i as int),
            (ox as int, oy as int, oz as int) == dir.spec_rotate(u as int, v as int, d as int),
            q == (Quad {
                dir,
                u: u as int,
                v: v as int,
                d: d as int,
                w: w as int,
                h: h as int,
                texture_index,
            }),
            u < CHUNK_SIZE,
            v < CHUNK_SIZE,
            d < CHUNK_SIZE,
            w <= CHUNK_SIZE,
            h <= CHUNK_SIZE,
            ox < CHUNK_SIZE,
            oy < CHUNK_SIZE,
            oz < CHUNK_SIZE,
        decreases 4 - i,
    {
        let (cx, cy, cz) = dir.corner(i, w, h);
        let vu = if i == 1 || i == 2 {
            w
        } else {
            0
        };
        let vv = if i == 0 || i == 1 {
            h
        } else {
            0
        };
        let vertex = ChunkVertex {
            x: translation.0 as i64 + ox as i64 + cx,
            y: translation.1 as i64 + oy as i64 + cy,
            z: translation.2 as i64 + oz as i64 + cz,
            u: vu,
            v: vv,
            texture_index,
        };
        assert(vertex == quad_vertex(q, translation, i as int));
        dst.vertices.push(vertex);
        assert(quad_vertices(q, translation).take(i + 1) =~= quad_vertices(q, translation).take(
            i as int,
        ).push(quad_vertex(q, translation, i as int)));
        i = i + 1;
    }
    assert(quad_vertices(q, translation).take(4) =~= quad_vertices(q, translation));
    dst.indices.push(first_index);
    dst.indices.push(first_index + 1);
    dst.indices.push(first_index + 2);
    dst.indices.push(first_index + 2);
    dst.indices.push(first_index + 3);
    dst.indices.push(first_index);
    assert(dst.indices@ =~= old(dst).indices@ + quad_indices(4 * qs.len() as int));
}


/// The cell at layer `k` of column (u, v) is in the chunk; its neighbour in
/// direction `dir` is outside the chunk on the first layer and is the cell
/// of the previous layer otherwise.
pub(crate) proof fn lemma_sweep_neighbor(dir: FaceDir, u: int, v: int, k: int)
    requires
        0 <= u < CHUNK_SIZE,
        0 <= v < CHUNK_SIZE,
        0 <= k < CHUNK_SIZE,
    ensures
        ({
            let (x, y, z) = dir.spec_rotate(u, v, dir.spec_layer_depth(k));
            let (dx, dy, dz) = dir.normal();
            &&& in_chunk(x, y, z)
            &&& k == 0 ==> !in_chunk(x + dx, y + dy, z + dz)
            &&& k > 0 ==> (x + dx, y + dy, z + dz) == dir.spec_rotate(
                u,
                v,
                dir.spec_layer_depth(k - 1),
            )
        }),
{
}

/// Appends the culled quads of direction `dir`.
pub(crate) fn add_visible_faces(
    dst: &mut ChunkMeshData,
    reg: &BlockRegistry,
    input: &ChunkMeshInput,
    dir: FaceDir,
    Ghost(qs0): Ghost<Seq<Quad>>,
)
    requires
        mesh_of(old(dst), qs0, input.translation),
        qs0.len() <= 5 * CHUNK_SIZE_CUBED,
        input.blocks@.len() == CHUNK_SIZE_CUBED,
    ensures
        mesh_of(final(dst), qs0 + culled_dir(reg, input.blocks@, dir), input.translation),
        culled_dir(reg, input.blocks@, dir).len() <= CHUNK_SIZE_CUBED,
{
    let ghost blocks = input.blocks@;
    let ghost t = input.translation;
    let mut pu: u32 = 0;
    while pu < CHUNK_SIZE
        invariant
            pu <= CHUNK_SIZE,
            blocks == input.blocks@,
            t == input.translation,
            blocks.len() == CHUNK_SIZE_CUBED,
            qs0.len() <= 5 * CHUNK_SIZE_CUBED,
            mesh_of(dst, qs0 + culled_slab(reg, blocks, dir, pu as int), t),
            culled_slab(reg, blocks, dir, pu as int).len() <= 1024 * pu,
        decreases CHUNK_SIZE - pu,
    {
        let mut pv: u32 = 0;
        while pv < CHUNK_SIZE
            invariant
                pu < CHUNK_SIZE,
                pv <= CHUNK_SIZE,
                blocks == input.blocks@,
                t == input.translation,
                blocks.len() == CHUNK_SIZE_CUBED,
                qs0.len() <= 5 * CHUNK_SIZE_CUBED,
                mesh_of(
                    dst,
                    qs0 + culled_slab(reg, blocks, dir, pu as int) + culled_row(
                        reg,
                        blocks,
                        dir,
                        pu as int,
                        pv as int,
                    ),
                    t,
                ),
                culled_slab(reg, blocks, dir, pu as int).len() <= 1024 * pu,
                culled_row(reg, blocks, dir, pu as int, pv as int).len() <= 32 * pv,
            decreases CHUNK_SIZE - pv,
        {
            let ghost before = qs0 + culled_slab(reg, blocks, dir, pu as int) + culled_row(
                reg,
                blocks,
                dir,
                pu as int,
                pv as int,
            );
            let mut visible = true;
            let mut k: u32 = 0;
            while k < CHUNK_SIZE
                invariant
                    pu < CHUNK_SIZE,
                    pv < CHUNK_SIZE,
                    k <= CHUNK_SIZE,
                    blocks == input.blocks@,
                    t == input.translation,
                    blocks.len() == CHUNK_SIZE_CUBED,
                    before.len() <= 5 * CHUNK_SIZE_CUBED + 1024 * pu + 32 * pv,
                    mesh_of(
                        dst,
                        before + culled_column(reg, blocks, dir, pu as int, pv as int, k as int),
                        t,
                    ),
                    culled_column(reg, blocks, dir, pu as int, pv as int, k as int).len() <= k,
                    k < CHUNK_SIZE ==> {
                        let (x, y, z) = dir.spec_rotate(
                            pu as int,
                            pv as int,
                            dir.spec_layer_depth(k as int),
                        );
                        visible == exposed(reg, blocks, dir, x, y, z)
                    },
                decreases CHUNK_SIZE - k,
            {
                let depth = dir.layer_depth(k);
                let (x, y, z) = dir.rotate(pu, pv, depth);
                proof {
                    lemma_sweep_neighbor(dir, pu as int, pv as int, k as int);
                    if k + 1 < CHUNK_SIZE {
                        lemma_sweep_neighbor(dir, pu as int, pv as int, k + 1);
                    }
                }
                let pos = LocalBlockPosition { x, y, z };
                let id = input.blocks[uvec3_to_chunk_index(pos)];
                let ghost col = culled_column(reg, blocks, dir, pu as int, pv as int, k as int);
                assert(block_at(blocks, x as int, y as int, z as int) == id);
                if let Some(face) = reg.face_of(id, dir) {
                    if visible {
                        add_face(
                            dst,
                            dir,
                            pu,
                            pv,
                            depth,
                            1,
                            1,
                            face.texture_index,
                            input.translation,
                            Ghost(before + col),
                        );
                        assert((before + col).push(
                            Quad {
                                dir,
                                u: pu as int,
                                v: pv as int,
                                d: depth as int,
                                w: 1,
                                h: 1,
                                texture_index: face.texture_index,
                            },
                        ) =~= before + culled_column(
                            reg,
                            blocks,
                            dir,
                            pu as int,
                            pv as int,
                            k + 1,
                        ));
                    } else {
                        assert(before + col =~= before + culled_column(
                            reg,
                            blocks,
                            dir,
                            pu as int,
                            pv as int,
                            k + 1,
                        ));
                    }
                } else {
                    assert(before + col =~= before + culled_column(
                        reg,
                        blocks,
                        dir,
                        pu as int,
                        pv as int,
                        k + 1,
                    ));
                }
                visible = reg.face_of(id, dir.opposite()).is_none();
                k = k + 1;
            }
            assert(before + culled_column(reg, blocks, dir, pu as int, pv as int, 32) =~= qs0
                + culled_slab(reg, blocks, dir, pu as int) + culled_row(
                reg,
                blocks,
                dir,
                pu as int,
                pv + 1,
            ));
            pv = pv + 1;
        }
        assert(qs0 + culled_slab(reg, blocks, dir, pu as int) + culled_row(
            reg,
            blocks,
            dir,
            pu as int,
            32,
        ) =~= qs0 + culled_slab(reg, blocks, dir, pu + 1));
        pu = pu + 1;
    }
}


/// Builds the mesh of every exposed face, one unit quad per face, without
/// merging. Directions come in the order +X, +Y, +Z, -X, -Y, -Z.
pub fn mesh_culled(reg: &BlockRegistry, input: ChunkMeshInput) -> (r: ChunkMeshData)
    requires
        input.blocks@.len() == CHUNK_SIZE_CUBED,
    ensures
        mesh_of(&r, culled_quads(reg, input.blocks@), input.translation),
{
    let ghost blocks = input.blocks@;
    let mut result = ChunkMeshData::empty();
    proof {
        assert(result.vertices@ =~= mesh_vertices(Seq::<Quad>::empty(), input.translation));
        assert(result.indices@ =~= mesh_indices(0));
    }
    let ghost qs0: Seq<Quad> = seq![];
    add_visible_faces(&mut result, reg, &input, FaceDir::PosX, Ghost(qs0));
    let ghost qs1 = qs0 + culled_dir(reg, blocks, FaceDir::PosX);
    add_visible_faces(&mut result, reg, &input, FaceDir::PosY, Ghost(qs1));
    let ghost qs2 = qs1 + culled_dir(reg, blocks, FaceDir::PosY);
    add_visible_faces(&mut result, reg, &input, FaceDir::PosZ, Ghost(qs2));
    let ghost qs3 = qs2 + culled_dir(reg, blocks, FaceDir::PosZ);
    add_visible_faces(&mut result, reg, &input, FaceDir::NegX, Ghost(qs3));
    let ghost qs4 = qs3 + culled_dir(reg, blocks, FaceDir::NegX);
    add_visible_faces(&mut result, reg, &input, FaceDir::NegY, Ghost(qs4));
    let ghost qs5 = qs4 + culled_dir(reg, blocks, FaceDir::NegY);
    add_visible_faces(&mut result, reg, &input, FaceDir::NegZ, Ghost(qs5));
    assert(qs5 + culled_dir(reg, blocks, FaceDir::NegZ) =~= culled_quads(reg, blocks));
    result
}


pub(crate) proof fn lemma_mesh_indices_len(n: nat)
    ensures
        mesh_indices(n).len() == 6 * n,
    decreases n,
{
    if n > 0 {
        lemma_mesh_indices_len((n - 1) as nat);
    }
}

/// The indices of the `k`-th quad of a mesh are 0, 1, 2, 2, 3, 0 offset by
/// the number of vertices before it, four per earlier quad.
pub proof fn lemma_index_layout(n: nat, k: int)
    requires
        0 <= k < n,
    ensures
        mesh_indices(n).subrange(6 * k, 6 * k + 6) == quad_indices(4 * k),
    decreases n,
{
    lemma_mesh_indices_len((n - 1) as nat);
    let prev = mesh_indices((n - 1) as nat);
    if k == n - 1 {
        assert(mesh_indices(n).subrange(6 * k, 6 * k + 6) =~= quad_indices(4 * k));
    } else {
        lemma_index_layout((n - 1) as nat, k);
        assert(mesh_indices(n).subrange(6 * k, 6 * k + 6) =~= prev.subrange(6 * k, 6 * k + 6));
    }
}

/// Culled meshing is deterministic: two meshes that both meet its contract
/// for the same blocks and translation hold identical buffers.
pub proof fn lemma_culled_deterministic(
    reg: &BlockRegistry,
    blocks: Seq<BlockId>,
    t: (i32, i32, i32),
    m1: &ChunkMeshData,
    m2: &ChunkMeshData,
)
    requires
        mesh_of(m1, culled_quads(reg, blocks), t),
        mesh_of(m2, culled_quads(reg, blocks), t),
    ensures
        m1.vertices@ == m2.vertices@,
        m1.indices@ == m2.indices@,
{
}

} // verus!
