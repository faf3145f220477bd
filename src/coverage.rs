//! Which cell faces a list of quads covers, and the laws that relate the
//! quads of the two mesh generators to the visible surface.

use vstd::prelude::*;

use crate::block::{BlockFace, BlockId, BlockRegistry, AIR};
use crate::chunk::{
    block_at_uvd, boundary_opaque, cell_index, in_chunk, VisibilityGraph, CHUNK_SIZE_CUBED,
};
use crate::face::{FaceDir, CHUNK_SIZE};
use crate::meshing::{
    Quad, cell_quad, culled_column, culled_dir, culled_quads, culled_row, culled_slab,
    lemma_mesh_vertices_len, lemma_sweep_neighbor, mesh_indices, mesh_vertices, visible_face,
};

verus! {

/// Whether quad `q` covers the cell face at (u, v, d) in direction `dir`.
pub open spec fn quad_covers(q: Quad, dir: FaceDir, u: int, v: int, d: int) -> bool {
    q.dir == dir && q.d == d && q.u <= u < q.u + q.w && q.v <= v < q.v + q.h
}

/// Whether some quad of `qs` covers the cell face at (u, v, d) in direction
/// `dir` with texture `tex`.
pub open spec fn covers(qs: Seq<Quad>, dir: FaceDir, u: int, v: int, d: int, tex: u32) -> bool {
    exists|k: int|
        0 <= k < qs.len() && #[trigger] quad_covers(qs[k], dir, u, v, d) && qs[k].texture_index
            == tex
}

/// Whether the cell face at (u, v, d) in direction `dir` is part of the
/// visible surface, with texture `tex`.
pub open spec fn surface(
    reg: &BlockRegistry,
    blocks: Seq<BlockId>,
    dir: FaceDir,
    u: int,
    v: int,
    d: int,
    tex: u32,
) -> bool {
    visible_face(reg, blocks, dir, u, v, d) == Some(BlockFace { texture_index: tex })
}

/// Texture of the visible face at (u, v, d), when there is one.
pub open spec fn visible_texture(
    reg: &BlockRegistry,
    blocks: Seq<BlockId>,
    dir: FaceDir,
    u: int,
    v: int,
    d: int,
) -> u32 {
    visible_face(reg, blocks, dir, u, v, d)->0.texture_index
}

/// Whether quad `q` lies inside the chunk and covers at least one cell.
pub open spec fn quad_in_chunk(q: Quad) -> bool {
    &&& 1 <= q.w && 0 <= q.u && q.u + q.w <= CHUNK_SIZE
    &&& 1 <= q.h && 0 <= q.v && q.v + q.h <= CHUNK_SIZE
    &&& 0 <= q.d < CHUNK_SIZE
}

/// Whether every cell face that `q` covers is visible and carries the
/// texture of `q`.
pub open spec fn quad_sound(reg: &BlockRegistry, blocks: Seq<BlockId>, q: Quad) -> bool {
    forall|u: int, v: int|
        q.u <= u < q.u + q.w && q.v <= v < q.v + q.h ==> #[trigger] visible_face(
            reg,
            blocks,
            q.dir,
            u,
            v,
            q.d,
        ) == Some(BlockFace { texture_index: q.texture_index })
}

pub(crate) proof fn lemma_covers_push(qs: Seq<Quad>, q: Quad)
    ensures
        forall|dir: FaceDir, u: int, v: int, d: int, tex: u32|
            covers(qs, dir, u, v, d, tex) ==> #[trigger] covers(qs.push(q), dir, u, v, d, tex),
{
    assert forall|dir: FaceDir, u: int, v: int, d: int, tex: u32|
        covers(qs, dir, u, v, d, tex) implies #[trigger] covers(qs.push(q), dir, u, v, d, tex) by {
        let k = choose|k: int|
            0 <= k < qs.len() && #[trigger] quad_covers(qs[k], dir, u, v, d)
                && qs[k].texture_index == tex;
        assert(qs.push(q)[k] == qs[k]);
    }
}

pub(crate) proof fn lemma_covers_append(a: Seq<Quad>, b: Seq<Quad>)
    ensures
        forall|dir: FaceDir, u: int, v: int, d: int, tex: u32|
            covers(a, dir, u, v, d, tex) || covers(b, dir, u, v, d, tex) <==> #[trigger] covers(
                a + b,
                dir,
                u,
                v,
                d,
                tex,
            ),
{
    assert forall|dir: FaceDir, u: int, v: int, d: int, tex: u32|
        covers(a, dir, u, v, d, tex) || covers(b, dir, u, v, d, tex) <==> #[trigger] covers(
            a + b,
            dir,
            u,
            v,
            d,
            tex,
        ) by {
        if covers(a, dir, u, v, d, tex) {
            let k = choose|k: int|
                0 <= k < a.len() && #[trigger] quad_covers(a[k], dir, u, v, d)
                    && a[k].texture_index == tex;
            assert((a + b)[k] == a[k]);
        }
        if covers(b, dir, u, v, d, tex) {
            let k = choose|k: int|
                0 <= k < b.len() && #[trigger] quad_covers(b[k], dir, u, v, d)
                    && b[k].texture_index == tex;
            assert((a + b)[k + a.len()] == b[k]);
        }
        if covers(a + b, dir, u, v, d, tex) {
            let k = choose|k: int|
                0 <= k < (a + b).len() && #[trigger] quad_covers((a + b)[k], dir, u, v, d) && (a
                    + b)[k].texture_index == tex;
            if k < a.len() {
                assert(quad_covers(a[k], dir, u, v, d));
            } else {
                assert(quad_covers(b[k - a.len()], dir, u, v, d));
            }
        }
    }
}

/// Whether every quad of `qs` lies in the chunk and covers only visible
/// faces that carry its texture.
pub open spec fn all_sound(reg: &BlockRegistry, blocks: Seq<BlockId>, qs: Seq<Quad>) -> bool {
    forall|k: int|
        0 <= k < qs.len() ==> quad_in_chunk(#[trigger] qs[k]) && quad_sound(reg, blocks, qs[k])
}

/// Whether every visible face of direction `dir` is covered by `qs` with
/// its texture.
pub open spec fn dir_complete(
    reg: &BlockRegistry,
    blocks: Seq<BlockId>,
    dir: FaceDir,
    qs: Seq<Quad>,
) -> bool {
    forall|u: int, v: int, d: int|
        0 <= u < CHUNK_SIZE && 0 <= v < CHUNK_SIZE && 0 <= d < CHUNK_SIZE && (#[trigger] visible_face(
            reg,
            blocks,
            dir,
            u,
            v,
            d,
        )) is Some ==> covers(qs, dir, u, v, d, visible_texture(reg, blocks, dir, u, v, d))
}

/// What greedy meshing guarantees of its quads: each is sound, and together
/// they cover every visible face in every direction.
pub open spec fn greedy_valid(reg: &BlockRegistry, blocks: Seq<BlockId>, qs: Seq<Quad>) -> bool {
    &&& all_sound(reg, blocks, qs)
    &&& forall|dir: FaceDir| #[trigger] dir_complete(reg, blocks, dir, qs)
}

pub(crate) proof fn lemma_append_sound(reg: &BlockRegistry, blocks: Seq<BlockId>, a: Seq<Quad>, b: Seq<Quad>)
    requires
        all_sound(reg, blocks, a),
        all_sound(reg, blocks, b),
    ensures
        all_sound(reg, blocks, a + b),
{
    assert forall|k: int| 0 <= k < (a + b).len() implies quad_in_chunk(#[trigger] (a + b)[k])
        && quad_sound(reg, blocks, (a + b)[k]) by {
        if k < a.len() {
            assert((a + b)[k] == a[k]);
        } else {
            assert((a + b)[k] == b[k - a.len()]);
        }
    }
}

pub(crate) proof fn lemma_append_complete(
    reg: &BlockRegistry,
    blocks: Seq<BlockId>,
    dir: FaceDir,
    a: Seq<Quad>,
    b: Seq<Quad>,
)
    requires
        dir_complete(reg, blocks, dir, a) || dir_complete(reg, blocks, dir, b),
    ensures
        dir_complete(reg, blocks, dir, a + b),
{
    lemma_covers_append(a, b);
}

pub(crate) proof fn lemma_culled_column(
    reg: &BlockRegistry,
    blocks: Seq<BlockId>,
    dir: FaceDir,
    u: int,
    v: int,
    k: int,
)
    requires
        0 <= u < CHUNK_SIZE,
        0 <= v < CHUNK_SIZE,
        0 <= k <= CHUNK_SIZE,
    ensures
        all_sound(reg, blocks, culled_column(reg, blocks, dir, u, v, k)),
        forall|k2: int|
            0 <= k2 < k && (#[trigger] visible_face(
                reg,
                blocks,
                dir,
                u,
                v,
                dir.spec_layer_depth(k2),
            )) is Some ==> covers(
                culled_column(reg, blocks, dir, u, v, k),
                dir,
                u,
                v,
                dir.spec_layer_depth(k2),
                visible_texture(reg, blocks, dir, u, v, dir.spec_layer_depth(k2)),
            ),
    decreases k,
{
    if k > 0 {
        lemma_culled_column(reg, blocks, dir, u, v, k - 1);
        let a = culled_column(reg, blocks, dir, u, v, k - 1);
        let d = dir.spec_layer_depth(k - 1);
        let b = cell_quad(reg, blocks, dir, u, v, d);
        lemma_covers_append(a, b);
        if let Some(f) = visible_face(reg, blocks, dir, u, v, d) {
            let q = Quad { dir, u, v, d, w: 1, h: 1, texture_index: f.texture_index };
            assert(b[0] == q);
            assert(quad_covers(b[0], dir, u, v, d));
            assert forall|u2: int, v2: int|
                q.u <= u2 < q.u + q.w && q.v <= v2 < q.v + q.h implies #[trigger] visible_face(
                reg,
                blocks,
                q.dir,
                u2,
                v2,
                q.d,
            ) == Some(BlockFace { texture_index: q.texture_index }) by {}
            assert(all_sound(reg, blocks, b));
        } else {
            assert(all_sound(reg, blocks, b));
        }
        lemma_append_sound(reg, blocks, a, b);
    }
}

pub(crate) proof fn lemma_culled_row(reg: &BlockRegistry, blocks: Seq<BlockId>, dir: FaceDir, u: int, v: int)
    requires
        0 <= u < CHUNK_SIZE,
        0 <= v <= CHUNK_SIZE,
    ensures
        all_sound(reg, blocks, culled_row(reg, blocks, dir, u, v)),
        forall|v2: int, k2: int|
            0 <= v2 < v && 0 <= k2 < CHUNK_SIZE && (#[trigger] visible_face(
                reg,
                blocks,
                dir,
                u,
                v2,
                dir.spec_layer_depth(k2),
            )) is Some ==> covers(
                culled_row(reg, blocks, dir, u, v),
                dir,
                u,
                v2,
                dir.spec_layer_depth(k2),
                visible_texture(reg, blocks, dir, u, v2, dir.spec_layer_depth(k2)),
            ),
    decreases v,
{
    if v > 0 {
        lemma_culled_row(reg, blocks, dir, u, v - 1);
        lemma_culled_column(reg, blocks, dir, u, v - 1, CHUNK_SIZE as int);
        let a = culled_row(reg, blocks, dir, u, v - 1);
        let b = culled_column(reg, blocks, dir, u, v - 1, CHUNK_SIZE as int);
        lemma_covers_append(a, b);
        lemma_append_sound(reg, blocks, a, b);
    }
}

pub(crate) proof fn lemma_culled_slab(reg: &BlockRegistry, blocks: Seq<BlockId>, dir: FaceDir, u: int)
    requires
        0 <= u <= CHUNK_SIZE,
    ensures
        all_sound(reg, blocks, culled_slab(reg, blocks, dir, u)),
        forall|u2: int, v2: int, k2: int|
            0 <= u2 < u && 0 <= v2 < CHUNK_SIZE && 0 <= k2 < CHUNK_SIZE && (#[trigger] visible_face(
                reg,
                blocks,
                dir,
                u2,
                v2,
                dir.spec_layer_depth(k2),
            )) is Some ==> covers(
                culled_slab(reg, blocks, dir, u),
                dir,
                u2,
                v2,
                dir.spec_layer_depth(k2),
                visible_texture(reg, blocks, dir, u2, v2, dir.spec_layer_depth(k2)),
            ),
    decreases u,
{
    if u > 0 {
        lemma_culled_slab(reg, blocks, dir, u - 1);
        lemma_culled_row(reg, blocks, dir, u - 1, CHUNK_SIZE as int);
        let a = culled_slab(reg, blocks, dir, u - 1);
        let b = culled_row(reg, blocks, dir, u - 1, CHUNK_SIZE as int);
        lemma_covers_append(a, b);
        lemma_append_sound(reg, blocks, a, b);
    }
}

pub(crate) proof fn lemma_culled_dir(reg: &BlockRegistry, blocks: Seq<BlockId>, dir: FaceDir)
    ensures
        all_sound(reg, blocks, culled_dir(reg, blocks, dir)),
        dir_complete(reg, blocks, dir, culled_dir(reg, blocks, dir)),
{
    lemma_culled_slab(reg, blocks, dir, CHUNK_SIZE as int);
    let qs = culled_dir(reg, blocks, dir);
    assert forall|u: int, v: int, d: int|
        0 <= u < CHUNK_SIZE && 0 <= v < CHUNK_SIZE && 0 <= d < CHUNK_SIZE && (#[trigger] visible_face(
            reg,
            blocks,
            dir,
            u,
            v,
            d,
        )) is Some implies covers(qs, dir, u, v, d, visible_texture(reg, blocks, dir, u, v, d)) by {
        let k = if dir.spec_negative() {
            d
        } else {
            CHUNK_SIZE - 1 - d
        };
        assert(dir.spec_layer_depth(k) == d);
    }
}

/// Six per-direction quad sequences, each sound and covering its direction,
/// concatenated in the order +X, +Y, +Z, -X, -Y, -Z, satisfy `greedy_valid`.
pub(crate) proof fn lemma_six_dirs(
    reg: &BlockRegistry,
    blocks: Seq<BlockId>,
    a1: Seq<Quad>,
    a2: Seq<Quad>,
    a3: Seq<Quad>,
    a4: Seq<Quad>,
    a5: Seq<Quad>,
    a6: Seq<Quad>,
)
    requires
        all_sound(reg, blocks, a1) && dir_complete(reg, blocks, FaceDir::PosX, a1),
        all_sound(reg, blocks, a2) && dir_complete(reg, blocks, FaceDir::PosY, a2),
        all_sound(reg, blocks, a3) && dir_complete(reg, blocks, FaceDir::PosZ, a3),
        all_sound(reg, blocks, a4) && dir_complete(reg, blocks, FaceDir::NegX, a4),
        all_sound(reg, blocks, a5) && dir_complete(reg, blocks, FaceDir::NegY, a5),
        all_sound(reg, blocks, a6) && dir_complete(reg, blocks, FaceDir::NegZ, a6),
    ensures
        greedy_valid(reg, blocks, a1 + a2 + a3 + a4 + a5 + a6),
{
    let qs2 = a1 + a2;
    let qs3 = qs2 + a3;
    let qs4 = qs3 + a4;
    let qs5 = qs4 + a5;
    let qs6 = qs5 + a6;
    lemma_append_sound(reg, blocks, a1, a2);
    lemma_append_sound(reg, blocks, qs2, a3);
    lemma_append_sound(reg, blocks, qs3, a4);
    lemma_append_sound(reg, blocks, qs4, a5);
    lemma_append_sound(reg, blocks, qs5, a6);
    lemma_append_complete(reg, blocks, FaceDir::PosX, a1, a2);
    lemma_append_complete(reg, blocks, FaceDir::PosX, qs2, a3);
    lemma_append_complete(reg, blocks, FaceDir::PosX, qs3, a4);
    lemma_append_complete(reg, blocks, FaceDir::PosX, qs4, a5);
    lemma_append_complete(reg, blocks, FaceDir::PosX, qs5, a6);
    lemma_append_complete(reg, blocks, FaceDir::PosY, a1, a2);
    lemma_append_complete(reg, blocks, FaceDir::PosY, qs2, a3);
    lemma_append_complete(reg, blocks, FaceDir::PosY, qs3, a4);
    lemma_append_complete(reg, blocks, FaceDir::PosY, qs4, a5);
    lemma_append_complete(reg, blocks, FaceDir::PosY, qs5, a6);
    lemma_append_complete(reg, blocks, FaceDir::PosZ, qs2, a3);
    lemma_append_complete(reg, blocks, FaceDir::PosZ, qs3, a4);
    lemma_append_complete(reg, blocks, FaceDir::PosZ, qs4, a5);
    lemma_append_complete(reg, blocks, FaceDir::PosZ, qs5, a6);
    lemma_append_complete(reg, blocks, FaceDir::NegX, qs3, a4);
    lemma_append_complete(reg, blocks, FaceDir::NegX, qs4, a5);
    lemma_append_complete(reg, blocks, FaceDir::NegX, qs5, a6);
    lemma_append_complete(reg, blocks, FaceDir::NegY, qs4, a5);
    lemma_append_complete(reg, blocks, FaceDir::NegY, qs5, a6);
    lemma_append_complete(reg, blocks, FaceDir::NegZ, qs5, a6);
    assert forall|dir: FaceDir| #[trigger] dir_complete(reg, blocks, dir, qs6) by {
        match dir {
            FaceDir::PosX => {},
            FaceDir::PosY => {},
            FaceDir::PosZ => {},
            FaceDir::NegX => {},
            FaceDir::NegY => {},
            FaceDir::NegZ => {},
        }
    }
}

/// The culled quads are themselves sound and cover every visible face.
pub(crate) proof fn lemma_culled_valid(reg: &BlockRegistry, blocks: Seq<BlockId>)
    ensures
        greedy_valid(reg, blocks, culled_quads(reg, blocks)),
{
    lemma_culled_dir(reg, blocks, FaceDir::PosX);
    lemma_culled_dir(reg, blocks, FaceDir::PosY);
    lemma_culled_dir(reg, blocks, FaceDir::PosZ);
    lemma_culled_dir(reg, blocks, FaceDir::NegX);
    lemma_culled_dir(reg, blocks, FaceDir::NegY);
    lemma_culled_dir(reg, blocks, FaceDir::NegZ);
    lemma_six_dirs(
        reg,
        blocks,
        culled_dir(reg, blocks, FaceDir::PosX),
        culled_dir(reg, blocks, FaceDir::PosY),
        culled_dir(reg, blocks, FaceDir::PosZ),
        culled_dir(reg, blocks, FaceDir::NegX),
        culled_dir(reg, blocks, FaceDir::NegY),
        culled_dir(reg, blocks, FaceDir::NegZ),
    );
}


/// Under `greedy_valid`, quads cover exactly the visible surface.
pub(crate) proof fn lemma_valid_covers(reg: &BlockRegistry, blocks: Seq<BlockId>, qs: Seq<Quad>)
    requires
        greedy_valid(reg, blocks, qs),
    ensures
        forall|dir: FaceDir, u: int, v: int, d: int, tex: u32|
            #[trigger] covers(qs, dir, u, v, d, tex) <==> surface(reg, blocks, dir, u, v, d, tex),
{
    assert forall|dir: FaceDir, u: int, v: int, d: int, tex: u32|
        #[trigger] covers(qs, dir, u, v, d, tex) <==> surface(reg, blocks, dir, u, v, d, tex) by {
        if covers(qs, dir, u, v, d, tex) {
            let k = choose|k: int|
                0 <= k < qs.len() && #[trigger] quad_covers(qs[k], dir, u, v, d)
                    && qs[k].texture_index == tex;
            assert(quad_sound(reg, blocks, qs[k]));
            assert(visible_face(reg, blocks, qs[k].dir, u, v, qs[k].d) == Some(
                BlockFace { texture_index: qs[k].texture_index },
            ));
        }
        if surface(reg, blocks, dir, u, v, d, tex) {
            assert(dir_complete(reg, blocks, dir, qs));
            assert(visible_face(reg, blocks, dir, u, v, d) is Some);
        }
    }
}

/// Merge soundness: every cell face that a quad of greedy meshing covers is
/// visible and shows that quad's face, so no quad spans cells with
/// different faces or an occluded cell.
pub proof fn lemma_merge_sound(
    reg: &BlockRegistry,
    blocks: Seq<BlockId>,
    qs: Seq<Quad>,
    k: int,
    u: int,
    v: int,
)
    requires
        greedy_valid(reg, blocks, qs),
        0 <= k < qs.len(),
        quad_covers(qs[k], qs[k].dir, u, v, qs[k].d),
    ensures
        visible_face(reg, blocks, qs[k].dir, u, v, qs[k].d) == Some(
            BlockFace { texture_index: qs[k].texture_index },
        ),
{
    assert(quad_sound(reg, blocks, qs[k]));
}

/// Greedy and culled meshing cover the same visible surface: a cell face
/// with a given direction and texture is covered by the quads of greedy
/// meshing exactly when it is covered by those of culled meshing.
pub proof fn lemma_same_surface(reg: &BlockRegistry, blocks: Seq<BlockId>, qs: Seq<Quad>)
    requires
        greedy_valid(reg, blocks, qs),
    ensures
        forall|dir: FaceDir, u: int, v: int, d: int, tex: u32|
            #[trigger] covers(qs, dir, u, v, d, tex) <==> covers(
                culled_quads(reg, blocks),
                dir,
                u,
                v,
                d,
                tex,
            ),
{
    lemma_culled_valid(reg, blocks);
    lemma_valid_covers(reg, blocks, qs);
    lemma_valid_covers(reg, blocks, culled_quads(reg, blocks));
}

/// Quads that satisfy `greedy_valid` where no face is visible are none.
pub(crate) proof fn lemma_valid_empty(reg: &BlockRegistry, blocks: Seq<BlockId>, qs: Seq<Quad>)
    requires
        greedy_valid(reg, blocks, qs),
        forall|dir: FaceDir, u: int, v: int, d: int|
            #[trigger] visible_face(reg, blocks, dir, u, v, d) is None,
    ensures
        qs.len() == 0,
{
    if qs.len() > 0 {
        let q = qs[0];
        assert(quad_in_chunk(q) && quad_sound(reg, blocks, q));
        assert(visible_face(reg, blocks, q.dir, q.u, q.v, q.d) is None);
    }
}

/// A chunk of air is open on all six sides, and neither culled nor greedy
/// meshing emits any vertex or index for it.
pub proof fn lemma_air_chunk(reg: &BlockRegistry, blocks: Seq<BlockId>)
    requires
        blocks.len() == CHUNK_SIZE_CUBED,
        forall|i: int| 0 <= i < blocks.len() ==> (#[trigger] blocks[i]).0 == AIR,
    ensures
        VisibilityGraph::spec_compute(reg, blocks) == (VisibilityGraph {
            pos_x: false,
            pos_y: false,
            pos_z: false,
            neg_x: false,
            neg_y: false,
            neg_z: false,
        }),
        forall|t: (i32, i32, i32)|
            #[trigger] mesh_vertices(culled_quads(reg, blocks), t).len() == 0 && mesh_indices(
                culled_quads(reg, blocks).len(),
            ).len() == 0,
        forall|qs: Seq<Quad>, t: (i32, i32, i32)|
            greedy_valid(reg, blocks, qs) ==> #[trigger] mesh_vertices(qs, t).len() == 0
                && mesh_indices(qs.len()).len() == 0,
{
    assert forall|dir: FaceDir, u: int, v: int, d: int|
        #[trigger] visible_face(reg, blocks, dir, u, v, d) is None by {
        let (x, y, z) = dir.spec_rotate(u, v, d);
        if in_chunk(x, y, z) {
            assert(blocks[cell_index(x, y, z)].0 == AIR);
        }
    }
    assert forall|dir: FaceDir| !boundary_opaque(reg, blocks, dir) by {
        lemma_sweep_neighbor(dir, 0, 0, 0);
        let (x, y, z) = dir.spec_rotate(0, 0, dir.spec_layer_depth(0));
        assert(blocks[cell_index(x, y, z)].0 == AIR);
        assert(reg.spec_face_of(block_at_uvd(blocks, dir, 0, 0, dir.spec_layer_depth(0)), dir)
            is None);
    }
    lemma_culled_valid(reg, blocks);
    lemma_valid_empty(reg, blocks, culled_quads(reg, blocks));
    assert forall|t: (i32, i32, i32)|
        #[trigger] mesh_vertices(culled_quads(reg, blocks), t).len() == 0 && mesh_indices(
            culled_quads(reg, blocks).len(),
        ).len() == 0 by {
        lemma_mesh_vertices_len(culled_quads(reg, blocks), t);
    }
    assert forall|qs: Seq<Quad>, t: (i32, i32, i32)|
        greedy_valid(reg, blocks, qs) implies #[trigger] mesh_vertices(qs, t).len() == 0
        && mesh_indices(qs.len()).len() == 0 by {
        lemma_valid_empty(reg, blocks, qs);
        lemma_mesh_vertices_len(qs, t);
    }
}

} // verus!
