//! Greedy meshing: merging equal visible faces into rectangles, layer by
//! layer.

use vstd::prelude::*;

use crate::block::{can_merge_faces, BlockFace, BlockId, BlockRegistry};
use crate::chunk::{
    block_at_uvd, uvec3_to_chunk_index, LocalBlockPosition, CHUNK_SIZE_CUBED, CHUNK_SIZE_SQUARED,
};
use crate::face::{FaceDir, CHUNK_SIZE};
use crate::coverage::{
    all_sound, covers, dir_complete, greedy_valid, lemma_covers_push, lemma_same_surface,
    lemma_six_dirs, quad_covers, quad_in_chunk, quad_sound, visible_texture,
};
use crate::meshing::{
    ChunkMeshData, ChunkMeshInput, Quad, add_face, culled_quads, exposed, lemma_sweep_neighbor,
    lidx, mesh_indices, mesh_of, mesh_vertices, visible_face,
};

verus! {

/// Whether the cell at (u, v, d) lets the cell behind it (one layer further
/// from the side `dir` faces) be seen: it has no face pointing back.
pub open spec fn passes_view(
    reg: &BlockRegistry,
    blocks: Seq<BlockId>,
    dir: FaceDir,
    u: int,
    v: int,
    d: int,
) -> bool {
    reg.spec_face_of(block_at_uvd(blocks, dir, u, v, d), dir.spec_opposite()) is None
}

/// Whether the cell at (u, v, d) is exposed in direction `dir`.
pub open spec fn layer_exposed(
    reg: &BlockRegistry,
    blocks: Seq<BlockId>,
    dir: FaceDir,
    u: int,
    v: int,
    d: int,
) -> bool {
    let (x, y, z) = dir.spec_rotate(u, v, d);
    exposed(reg, blocks, dir, x, y, z)
}

/// Whether every quad of `qs` points in direction `dir`, lies in the chunk
/// and is sound.
pub open spec fn quads_ok(reg: &BlockRegistry, blocks: Seq<BlockId>, dir: FaceDir, qs: Seq<Quad>) -> bool {
    forall|k: int|
        0 <= k < qs.len() ==> (#[trigger] qs[k]).dir == dir && quad_in_chunk(qs[k]) && quad_sound(
            reg,
            blocks,
            qs[k],
        )
}

/// Whether every visible face of direction `dir` in the first `n` layers
/// of the sweep is covered by `qs`.
pub open spec fn layers_covered(
    reg: &BlockRegistry,
    blocks: Seq<BlockId>,
    dir: FaceDir,
    qs: Seq<Quad>,
    n: int,
) -> bool {
    forall|u: int, v: int, k: int|
        0 <= u < CHUNK_SIZE && 0 <= v < CHUNK_SIZE && 0 <= k < n && (#[trigger] visible_face(
            reg,
            blocks,
            dir,
            u,
            v,
            dir.spec_layer_depth(k),
        )) is Some ==> covers(
            qs,
            dir,
            u,
            v,
            dir.spec_layer_depth(k),
            visible_texture(reg, blocks, dir, u, v, dir.spec_layer_depth(k)),
        )
}

/// Whether (u, v) lies in the rectangle with corner (ru, rv) and size (rw, rh).
pub open spec fn in_rect(ru: int, rv: int, rw: int, rh: int, u: int, v: int) -> bool {
    ru <= u < ru + rw && rv <= v < rv + rh
}

/// Whether every cell of the rectangle shows `face` in layer `d`.
pub open spec fn rect_ok(
    reg: &BlockRegistry,
    blocks: Seq<BlockId>,
    dir: FaceDir,
    d: int,
    face: BlockFace,
    ru: int,
    rv: int,
    rw: int,
    rh: int,
) -> bool {
    forall|u: int, v: int|
        in_rect(ru, rv, rw, rh, u, v) ==> #[trigger] visible_face(reg, blocks, dir, u, v, d) == Some(
            face,
        )
}

/// State of the sweep over layer `d` once the cells before index `pos` have
/// been taken as seeds, with a rectangle (ru, rv, rw, rh) being grown.
/// `visible` holds, per cell, whether the cell is exposed, until the cell
/// has been taken or merged; from then on whether the cell of the next
/// layer is. A merged cell shows a face; a merged or taken cell with a
/// visible face is covered by `qs` or lies in the rectangle.
pub open spec fn sweep_ok(
    reg: &BlockRegistry,
    blocks: Seq<BlockId>,
    dir: FaceDir,
    d: int,
    visible: Seq<bool>,
    merged: Seq<bool>,
    qs: Seq<Quad>,
    pos: int,
    ru: int,
    rv: int,
    rw: int,
    rh: int,
) -> bool {
    &&& visible.len() == CHUNK_SIZE_SQUARED
    &&& merged.len() == CHUNK_SIZE_SQUARED
    &&& forall|u: int, v: int|
        0 <= u < CHUNK_SIZE && 0 <= v < CHUNK_SIZE ==> {
            &&& visible[#[trigger] lidx(u, v)] == if lidx(u, v) < pos || merged[lidx(u, v)] {
                passes_view(reg, blocks, dir, u, v, d)
            } else {
                layer_exposed(reg, blocks, dir, u, v, d)
            }
            &&& merged[lidx(u, v)] ==> visible_face(reg, blocks, dir, u, v, d) is Some
            &&& (lidx(u, v) < pos || merged[lidx(u, v)]) && visible_face(
                reg,
                blocks,
                dir,
                u,
                v,
                d,
            ) is Some ==> covers(qs, dir, u, v, d, visible_texture(reg, blocks, dir, u, v, d))
                || in_rect(ru, rv, rw, rh, u, v)
        }
}

/// Whether the cell at (x, cv) of layer `d` shows `face` and is marked visible.
pub open spec fn candidate_ok(
    reg: &BlockRegistry,
    blocks: Seq<BlockId>,
    visible: Seq<bool>,
    dir: FaceDir,
    d: int,
    face: BlockFace,
    x: int,
    cv: int,
) -> bool {
    reg.spec_face_of(block_at_uvd(blocks, dir, x, cv, d), dir) == Some(face) && visible[lidx(x, cv)]
}

/// Sweep state after growing a rectangle of `face` at (u, v), now `w` wide,
/// along U: each candidate that joins is marked merged and records whether
/// the cell behind it will be visible. Yields the final width.
pub open spec fn grown_u(
    reg: &BlockRegistry,
    blocks: Seq<BlockId>,
    dir: FaceDir,
    d: int,
    vis: Seq<bool>,
    merged: Seq<bool>,
    face: BlockFace,
    u: int,
    v: int,
    w: int,
) -> (Seq<bool>, Seq<bool>, int)
    decreases CHUNK_SIZE - (u + w),
{
    if u + w < CHUNK_SIZE && candidate_ok(reg, blocks, vis, dir, d, face, u + w, v) {
        grown_u(
            reg,
            blocks,
            dir,
            d,
            vis.update(lidx(u + w, v), passes_view(reg, blocks, dir, u + w, v, d)),
            merged.update(lidx(u + w, v), true),
            face,
            u,
            v,
            w + 1,
        )
    } else {
        (vis, merged, w)
    }
}

/// Whether all cells u .. u + w of row `cv` can join a rectangle of `face`.
pub open spec fn row_joins(
    reg: &BlockRegistry,
    blocks: Seq<BlockId>,
    dir: FaceDir,
    d: int,
    vis: Seq<bool>,
    face: BlockFace,
    u: int,
    w: int,
    cv: int,
) -> bool {
    forall|i: int| 0 <= i < w ==> #[trigger] candidate_ok(reg, blocks, vis, dir, d, face, u + i, cv)
}

/// Sweep state after marking cells u + x .. u + w of row `cv` as merged.
pub open spec fn marked_row(
    reg: &BlockRegistry,
    blocks: Seq<BlockId>,
    dir: FaceDir,
    d: int,
    vis: Seq<bool>,
    merged: Seq<bool>,
    u: int,
    w: int,
    cv: int,
    x: int,
) -> (Seq<bool>, Seq<bool>)
    decreases w - x,
{
    if x < w {
        marked_row(
            reg,
            blocks,
            dir,
            d,
            vis.update(lidx(u + x, cv), passes_view(reg, blocks, dir, u + x, cv, d)),
            merged.update(lidx(u + x, cv), true),
            u,
            w,
            cv,
            x + 1,
        )
    } else {
        (vis, merged)
    }
}

/// Sweep state after growing a rectangle of `face` at (u, v), `w` wide and
/// now `h` high, along V by whole rows. Yields the final height.
pub open spec fn grown_v(
    reg: &BlockRegistry,
    blocks: Seq<BlockId>,
    dir: FaceDir,
    d: int,
    vis: Seq<bool>,
    merged: Seq<bool>,
    face: BlockFace,
    u: int,
    v: int,
    w: int,
    h: int,
) -> (Seq<bool>, Seq<bool>, int)
    decreases CHUNK_SIZE - (v + h),
{
    if v + h < CHUNK_SIZE && row_joins(reg, blocks, dir, d, vis, face, u, w, v + h) {
        let (vis2, merged2) = marked_row(reg, blocks, dir, d, vis, merged, u, w, v + h, 0);
        grown_v(reg, blocks, dir, d, vis2, merged2, face, u, v, w, h + 1)
    } else {
        (vis, merged, h)
    }
}

/// Sweep state and emitted quads after taking (u, v) of layer `d` as the
/// origin of a rectangle.
pub open spec fn taken(
    reg: &BlockRegistry,
    blocks: Seq<BlockId>,
    dir: FaceDir,
    d: int,
    vis: Seq<bool>,
    merged: Seq<bool>,
    u: int,
    v: int,
) -> (Seq<bool>, Seq<bool>, Seq<Quad>) {
    if merged[lidx(u, v)] {
        (vis, merged, seq![])
    } else {
        let vis1 = vis.update(lidx(u, v), passes_view(reg, blocks, dir, u, v, d));
        match reg.spec_face_of(block_at_uvd(blocks, dir, u, v, d), dir) {
            Some(face) => if vis[lidx(u, v)] {
                let (vis2, merged2, w) = grown_u(reg, blocks, dir, d, vis1, merged, face, u, v, 1);
                let (vis3, merged3, h) = grown_v(
                    reg,
                    blocks,
                    dir,
                    d,
                    vis2,
                    merged2,
                    face,
                    u,
                    v,
                    w,
                    1,
                );
                (vis3, merged3, seq![Quad { dir, u, v, d, w, h, texture_index: face.texture_index }])
            } else {
                (vis1, merged, seq![])
            },
            None => (vis1, merged, seq![]),
        }
    }
}

/// Sweep state and quads after taking cells (0, v) .. (n - 1, v).
pub open spec fn swept_row(
    reg: &BlockRegistry,
    blocks: Seq<BlockId>,
    dir: FaceDir,
    d: int,
    vis: Seq<bool>,
    merged: Seq<bool>,
    v: int,
    n: int,
) -> (Seq<bool>, Seq<bool>, Seq<Quad>)
    decreases n,
{
    if n <= 0 {
        (vis, merged, seq![])
    } else {
        let (vis1, merged1, qs1) = swept_row(reg, blocks, dir, d, vis, merged, v, n - 1);
        let (vis2, merged2, qs2) = taken(reg, blocks, dir, d, vis1, merged1, n - 1, v);
        (vis2, merged2, qs1 + qs2)
    }
}

/// Sweep state and quads after taking all cells of rows 0 .. m - 1.
pub open spec fn swept_layer(
    reg: &BlockRegistry,
    blocks: Seq<BlockId>,
    dir: FaceDir,
    d: int,
    vis: Seq<bool>,
    merged: Seq<bool>,
    m: int,
) -> (Seq<bool>, Seq<bool>, Seq<Quad>)
    decreases m,
{
    if m <= 0 {
        (vis, merged, seq![])
    } else {
        let (vis1, merged1, qs1) = swept_layer(reg, blocks, dir, d, vis, merged, m - 1);
        let (vis2, merged2, qs2) = swept_row(reg, blocks, dir, d, vis1, merged1, m - 1, 32);
        (vis2, merged2, qs1 + qs2)
    }
}

/// Visibility carried to the next layer, and quads, after sweeping the
/// first `k` layers of direction `dir`.
pub open spec fn swept_layers(reg: &BlockRegistry, blocks: Seq<BlockId>, dir: FaceDir, k: int) -> (
    Seq<bool>,
    Seq<Quad>,
)
    decreases k,
{
    if k <= 0 {
        (Seq::new(1024, |i: int| true), seq![])
    } else {
        let (vis1, qs1) = swept_layers(reg, blocks, dir, k - 1);
        let (vis2, merged2, qs2) = swept_layer(
            reg,
            blocks,
            dir,
            dir.spec_layer_depth(k - 1),
            vis1,
            Seq::new(1024, |i: int| false),
            32,
        );
        (vis2, qs1 + qs2)
    }
}

/// The quads that greedy meshing emits for direction `dir`.
pub open spec fn greedy_dir(reg: &BlockRegistry, blocks: Seq<BlockId>, dir: FaceDir) -> Seq<Quad> {
    swept_layers(reg, blocks, dir, 32).1
}

/// The quads that greedy meshing emits, direction by direction.
pub open spec fn greedy_quads(reg: &BlockRegistry, blocks: Seq<BlockId>) -> Seq<Quad> {
    greedy_dir(reg, blocks, FaceDir::PosX) + greedy_dir(reg, blocks, FaceDir::PosY) + greedy_dir(
        reg,
        blocks,
        FaceDir::PosZ,
    ) + greedy_dir(reg, blocks, FaceDir::NegX) + greedy_dir(reg, blocks, FaceDir::NegY)
        + greedy_dir(reg, blocks, FaceDir::NegZ)
}

/// A candidate at or after the sweep position that shows `face` and is
/// marked visible really shows `face`.
pub(crate) proof fn lemma_candidate(
    reg: &BlockRegistry,
    blocks: Seq<BlockId>,
    dir: FaceDir,
    d: int,
    visible: Seq<bool>,
    merged: Seq<bool>,
    qs: Seq<Quad>,
    pos: int,
    ru: int,
    rv: int,
    rw: int,
    rh: int,
    face: BlockFace,
    cu: int,
    cv: int,
)
    requires
        sweep_ok(reg, blocks, dir, d, visible, merged, qs, pos, ru, rv, rw, rh),
        0 <= cu < CHUNK_SIZE,
        0 <= cv < CHUNK_SIZE,
        0 <= d < CHUNK_SIZE,
        lidx(cu, cv) >= pos,
        visible[lidx(cu, cv)],
        reg.spec_face_of(block_at_uvd(blocks, dir, cu, cv, d), dir) == Some(face),
    ensures
        visible_face(reg, blocks, dir, cu, cv, d) == Some(face),
{
    assert(visible[lidx(cu, cv)]);
}

/// A vector of one layer's worth of `value`.
pub(crate) fn filled_layer(value: bool) -> (r: Vec<bool>)
    ensures
        r@.len() == CHUNK_SIZE_SQUARED,
        forall|i: int| 0 <= i < CHUNK_SIZE_SQUARED ==> r@[i] == value,
{
    let mut r: Vec<bool> = Vec::new();
    let mut i: usize = 0;
    while i < CHUNK_SIZE_SQUARED
        invariant
            i <= CHUNK_SIZE_SQUARED,
            r@.len() == i,
            forall|j: int| 0 <= j < i ==> r@[j] == value,
        decreases CHUNK_SIZE_SQUARED - i,
    {
        r.push(value);
        i = i + 1;
    }
    r
}

/// Examines the cell at (cu, cv) of layer `layer_pos` as a candidate to merge
/// with a face `seed_face`. Returns whether it can be merged (it shows
/// an equal face and is marked visible) and whether the cell behind it will
/// be visible.
pub(crate) fn consider_merge_candidate(
    reg: &BlockRegistry,
    blocks: &[BlockId],
    visible: &Vec<bool>,
    dir: FaceDir,
    layer_pos: u32,
    seed_face: BlockFace,
    cu: u32,
    cv: u32,
) -> (r: (bool, bool))
    requires
        blocks@.len() == CHUNK_SIZE_CUBED,
        visible@.len() == CHUNK_SIZE_SQUARED,
        cu < CHUNK_SIZE,
        cv < CHUNK_SIZE,
        layer_pos < CHUNK_SIZE,
    ensures
        r.0 == (reg.spec_face_of(
            block_at_uvd(blocks@, dir, cu as int, cv as int, layer_pos as int),
            dir,
        ) == Some(seed_face) && visible@[lidx(cu as int, cv as int)]),
        r.1 == passes_view(reg, blocks@, dir, cu as int, cv as int, layer_pos as int),
{
    let (x, y, z) = dir.rotate(cu, cv, layer_pos);
    let id = blocks[uvec3_to_chunk_index(LocalBlockPosition { x, y, z })];
    let face = reg.face_of(id, dir);
    let candidate_visible = visible[(CHUNK_SIZE * cv + cu) as usize];
    let can_merge = can_merge_faces(Some(seed_face), face) && candidate_visible;
    let next_visible = reg.face_of(id, dir.opposite()).is_none();
    (can_merge, next_visible)
}


/// Grows a rectangle of one cell at (u, v) along U as far as the candidates
/// can be merged, marking each merged cell and recording whether the cell
/// behind it will be visible. Returns the width.
pub(crate) fn grow_along_u(
    reg: &BlockRegistry,
    blocks: &[BlockId],
    visible: &mut Vec<bool>,
    merged: &mut Vec<bool>,
    dir: FaceDir,
    layer_pos: u32,
    face: BlockFace,
    u: u32,
    v: u32,
    Ghost(qs): Ghost<Seq<Quad>>,
) -> (w: u32)
    requires
        blocks@.len() == CHUNK_SIZE_CUBED,
        u < CHUNK_SIZE,
        v < CHUNK_SIZE,
        layer_pos < CHUNK_SIZE,
        sweep_ok(
            reg,
            blocks@,
            dir,
            layer_pos as int,
            old(visible)@,
            old(merged)@,
            qs,
            lidx(u as int, v as int) + 1,
            u as int,
            v as int,
            1,
            1,
        ),
        rect_ok(reg, blocks@, dir, layer_pos as int, face, u as int, v as int, 1, 1),
    ensures
        1 <= w,
        u + w <= CHUNK_SIZE,
        sweep_ok(
            reg,
            blocks@,
            dir,
            layer_pos as int,
            final(visible)@,
            final(merged)@,
            qs,
            lidx(u as int, v as int) + 1,
            u as int,
            v as int,
            w as int,
            1,
        ),
        rect_ok(reg, blocks@, dir, layer_pos as int, face, u as int, v as int, w as int, 1),
        (final(visible)@, final(merged)@, w as int) == grown_u(
            reg,
            blocks@,
            dir,
            layer_pos as int,
            old(visible)@,
            old(merged)@,
            face,
            u as int,
            v as int,
            1,
        ),
{
    let ghost vis0 = visible@;
    let ghost merged0 = merged@;
    let ghost pos = lidx(u as int, v as int) + 1;
    let ghost d = layer_pos as int;
    let mut w: u32 = 1;
    let mut growing = true;
    while growing && u + w < CHUNK_SIZE
        invariant
            blocks@.len() == CHUNK_SIZE_CUBED,
            u < CHUNK_SIZE,
            v < CHUNK_SIZE,
            layer_pos < CHUNK_SIZE,
            d == layer_pos as int,
            pos == lidx(u as int, v as int) + 1,
            1 <= w,
            u + w <= CHUNK_SIZE,
            sweep_ok(
                reg,
                blocks@,
                dir,
                d,
                visible@,
                merged@,
                qs,
                pos,
                u as int,
                v as int,
                w as int,
                1,
            ),
            rect_ok(reg, blocks@, dir, d, face, u as int, v as int, w as int, 1),
            grown_u(reg, blocks@, dir, d, vis0, merged0, face, u as int, v as int, 1) == if growing {
                grown_u(reg, blocks@, dir, d, visible@, merged@, face, u as int, v as int, w as int)
            } else {
                (visible@, merged@, w as int)
            },
        decreases (CHUNK_SIZE - w) as int + if growing {
            1int
        } else {
            0int
        },
    {
        let cu = u + w;
        let (can_merge, next_visible) = consider_merge_candidate(
            reg,
            blocks,
            visible,
            dir,
            layer_pos,
            face,
            cu,
            v,
        );
        if !can_merge {
            growing = false;
        } else {
            proof {
                lemma_candidate(
                    reg,
                    blocks@,
                    dir,
                    d,
                    visible@,
                    merged@,
                    qs,
                    pos,
                    u as int,
                    v as int,
                    w as int,
                    1,
                    face,
                    cu as int,
                    v as int,
                );
            }
            let index = (CHUNK_SIZE * v + cu) as usize;
            assert(index as int == lidx(cu as int, v as int));
            let ghost vis_before = visible@;
            merged.set(index, true);
            visible.set(index, next_visible);
            w = w + 1;
            assert(sweep_ok(
                reg,
                blocks@,
                dir,
                d,
                visible@,
                merged@,
                qs,
                pos,
                u as int,
                v as int,
                w as int,
                1,
            )) by {
                assert forall|u2: int, v2: int|
                    0 <= u2 < CHUNK_SIZE && 0 <= v2 < CHUNK_SIZE && lidx(u2, v2) != index as int
                    implies visible@[#[trigger] lidx(u2, v2)] == vis_before[lidx(u2, v2)] by {}
            }
        }
    }
    w
}


/// Examines the cells u .. u + w of row `cv` as merge candidates. Returns
/// whether all of them can be merged and, if so, for each whether the cell
/// behind it will be visible.
pub(crate) fn check_row(
    reg: &BlockRegistry,
    blocks: &[BlockId],
    visible: &Vec<bool>,
    dir: FaceDir,
    layer_pos: u32,
    face: BlockFace,
    u: u32,
    w: u32,
    cv: u32,
) -> (r: (bool, Vec<bool>))
    requires
        blocks@.len() == CHUNK_SIZE_CUBED,
        visible@.len() == CHUNK_SIZE_SQUARED,
        u + w <= CHUNK_SIZE,
        cv < CHUNK_SIZE,
        layer_pos < CHUNK_SIZE,
    ensures
        r.0 == row_joins(
            reg,
            blocks@,
            dir,
            layer_pos as int,
            visible@,
            face,
            u as int,
            w as int,
            cv as int,
        ),
        r.0 ==> r.1@.len() == w,
        r.0 ==> forall|i: int|
            0 <= i < w ==> #[trigger] r.1@[i] == passes_view(
                reg,
                blocks@,
                dir,
                u + i,
                cv as int,
                layer_pos as int,
            ) && candidate_ok(
                reg,
                blocks@,
                visible@,
                dir,
                layer_pos as int,
                face,
                u + i,
                cv as int,
            ),
{
    let mut next: Vec<bool> = Vec::new();
    let mut i: u32 = 0;
    let mut row_ok = true;
    while row_ok && i < w
        invariant
            blocks@.len() == CHUNK_SIZE_CUBED,
            visible@.len() == CHUNK_SIZE_SQUARED,
            u + w <= CHUNK_SIZE,
            cv < CHUNK_SIZE,
            layer_pos < CHUNK_SIZE,
            i <= w,
            !row_ok ==> !row_joins(
                reg,
                blocks@,
                dir,
                layer_pos as int,
                visible@,
                face,
                u as int,
                w as int,
                cv as int,
            ),
            row_ok ==> next@.len() == i,
            row_ok ==> forall|j: int|
                0 <= j < i ==> #[trigger] next@[j] == passes_view(
                    reg,
                    blocks@,
                    dir,
                    u + j,
                    cv as int,
                    layer_pos as int,
                ) && candidate_ok(
                    reg,
                    blocks@,
                    visible@,
                    dir,
                    layer_pos as int,
                    face,
                    u + j,
                    cv as int,
                ),
        decreases (w - i) as int + if row_ok {
            1int
        } else {
            0int
        },
    {
        let (can_merge, next_visible) = consider_merge_candidate(
            reg,
            blocks,
            visible,
            dir,
            layer_pos,
            face,
            u + i,
            cv,
        );
        if can_merge {
            let ghost next_before = next@;
            next.push(next_visible);
            assert(forall|j: int| 0 <= j < i ==> next@[j] == next_before[j]);
            i = i + 1;
        } else {
            assert(!candidate_ok(
                reg,
                blocks@,
                visible@,
                dir,
                layer_pos as int,
                face,
                u + i,
                cv as int,
            ));
            row_ok = false;
        }
    }
    proof {
        if row_ok {
            assert forall|j: int| 0 <= j < w implies #[trigger] candidate_ok(
                reg,
                blocks@,
                visible@,
                dir,
                layer_pos as int,
                face,
                u + j,
                cv as int,
            ) by {
                assert(next@[j] == passes_view(
                    reg,
                    blocks@,
                    dir,
                    u + j,
                    cv as int,
                    layer_pos as int,
                ));
            }
        }
    }
    (row_ok, next)
}

/// Marking a cell of the rectangle as merged, with the visibility of the
/// cell behind it, keeps the sweep state.
pub(crate) proof fn lemma_mark_merged(
    reg: &BlockRegistry,
    blocks: Seq<BlockId>,
    dir: FaceDir,
    d: int,
    visible: Seq<bool>,
    visible2: Seq<bool>,
    merged: Seq<bool>,
    merged2: Seq<bool>,
    qs: Seq<Quad>,
    pos: int,
    ru: int,
    rv: int,
    rw: int,
    rh: int,
    face: BlockFace,
    cu: int,
    cv: int,
)
    requires
        sweep_ok(reg, blocks, dir, d, visible, merged, qs, pos, ru, rv, rw, rh),
        rect_ok(reg, blocks, dir, d, face, ru, rv, rw, rh),
        0 <= cu < CHUNK_SIZE,
        0 <= cv < CHUNK_SIZE,
        in_rect(ru, rv, rw, rh, cu, cv),
        visible2 == visible.update(lidx(cu, cv), passes_view(reg, blocks, dir, cu, cv, d)),
        merged2 == merged.update(lidx(cu, cv), true),
    ensures
        sweep_ok(reg, blocks, dir, d, visible2, merged2, qs, pos, ru, rv, rw, rh),
{
    assert forall|u2: int, v2: int|
        0 <= u2 < CHUNK_SIZE && 0 <= v2 < CHUNK_SIZE && lidx(u2, v2) != lidx(cu, cv) implies
        visible2[#[trigger] lidx(u2, v2)] == visible[lidx(u2, v2)] && merged2[lidx(u2, v2)]
        == merged[lidx(u2, v2)] by {}
    assert(visible_face(reg, blocks, dir, cu, cv, d) == Some(face));
}

/// Grows a rectangle of width `w` at (u, v) along V, one whole row at a
/// time, while every cell of the next row can be merged. Returns the height.
pub(crate) fn grow_along_v(
    reg: &BlockRegistry,
    blocks: &[BlockId],
    visible: &mut Vec<bool>,
    merged: &mut Vec<bool>,
    dir: FaceDir,
    layer_pos: u32,
    face: BlockFace,
    u: u32,
    v: u32,
    w: u32,
    Ghost(qs): Ghost<Seq<Quad>>,
) -> (h: u32)
    requires
        blocks@.len() == CHUNK_SIZE_CUBED,
        u < CHUNK_SIZE,
        v < CHUNK_SIZE,
        1 <= w,
        u + w <= CHUNK_SIZE,
        layer_pos < CHUNK_SIZE,
        sweep_ok(
            reg,
            blocks@,
            dir,
            layer_pos as int,
            old(visible)@,
            old(merged)@,
            qs,
            lidx(u as int, v as int) + 1,
            u as int,
            v as int,
            w as int,
            1,
        ),
        rect_ok(reg, blocks@, dir, layer_pos as int, face, u as int, v as int, w as int, 1),
    ensures
        1 <= h,
        v + h <= CHUNK_SIZE,
        sweep_ok(
            reg,
            blocks@,
            dir,
            layer_pos as int,
            final(visible)@,
            final(merged)@,
            qs,
            lidx(u as int, v as int) + 1,
            u as int,
            v as int,
            w as int,
            h as int,
        ),
        rect_ok(reg, blocks@, dir, layer_pos as int, face, u as int, v as int, w as int, h as int),
        (final(visible)@, final(merged)@, h as int) == grown_v(
            reg,
            blocks@,
            dir,
            layer_pos as int,
            old(visible)@,
            old(merged)@,
            face,
            u as int,
            v as int,
            w as int,
            1,
        ),
{
    let ghost vis0 = visible@;
    let ghost merged0 = merged@;
    let ghost pos = lidx(u as int, v as int) + 1;
    let ghost d = layer_pos as int;
    let mut h: u32 = 1;
    let mut growing = true;
    while growing && v + h < CHUNK_SIZE
        invariant
            blocks@.len() == CHUNK_SIZE_CUBED,
            u < CHUNK_SIZE,
            v < CHUNK_SIZE,
            1 <= w,
            u + w <= CHUNK_SIZE,
            layer_pos < CHUNK_SIZE,
            d == layer_pos as int,
            pos == lidx(u as int, v as int) + 1,
            1 <= h,
            v + h <= CHUNK_SIZE,
            sweep_ok(
                reg,
                blocks@,
                dir,
                d,
                visible@,
                merged@,
                qs,
                pos,
                u as int,
                v as int,
                w as int,
                h as int,
            ),
            rect_ok(reg, blocks@, dir, d, face, u as int, v as int, w as int, h as int),
            grown_v(reg, blocks@, dir, d, vis0, merged0, face, u as int, v as int, w as int, 1)
                == if growing {
                grown_v(
                    reg,
                    blocks@,
                    dir,
                    d,
                    visible@,
                    merged@,
                    face,
                    u as int,
                    v as int,
                    w as int,
                    h as int,
                )
            } else {
                (visible@, merged@, h as int)
            },
        decreases (CHUNK_SIZE - h) as int + if growing {
            1int
        } else {
            0int
        },
    {
        let cv = v + h;
        let (row_ok, row_next) = check_row(reg, blocks, visible, dir, layer_pos, face, u, w, cv);
        assert(row_ok ==> forall|i: int|
            0 <= i < w ==> #[trigger] row_next@[i] == passes_view(
                reg,
                blocks@,
                dir,
                u + i,
                cv as int,
                d,
            ));
        if !row_ok {
            growing = false;
        } else {
            proof {
                assert forall|u2: int, v2: int|
                    in_rect(
                        u as int,
                        v as int,
                        w as int,
                        h + 1,
                        u2,
                        v2,
                    ) implies #[trigger] visible_face(reg, blocks@, dir, u2, v2, d) == Some(
                    face,
                ) by {
                    if v2 == cv {
                        assert(row_next@[u2 - u] == passes_view(
                            reg,
                            blocks@,
                            dir,
                            u2,
                            cv as int,
                            d,
                        ));
                        lemma_candidate(
                            reg,
                            blocks@,
                            dir,
                            d,
                            visible@,
                            merged@,
                            qs,
                            pos,
                            u as int,
                            v as int,
                            w as int,
                            h as int,
                            face,
                            u2,
                            cv as int,
                        );
                    }
                }
            }
            let ghost vis_s = visible@;
            let ghost merged_s = merged@;
            let ghost target = grown_v(
                reg,
                blocks@,
                dir,
                d,
                vis0,
                merged0,
                face,
                u as int,
                v as int,
                w as int,
                1,
            );
            let mut x: u32 = 0;
            while x < w
                invariant
                    blocks@.len() == CHUNK_SIZE_CUBED,
                    u < CHUNK_SIZE,
                    v < CHUNK_SIZE,
                    1 <= w,
                    u + w <= CHUNK_SIZE,
                    cv == v + h,
                    cv < CHUNK_SIZE,
                    x <= w,
                    d == layer_pos as int,
                    pos == lidx(u as int, v as int) + 1,
                    row_next@.len() == w,
                    forall|i: int|
                        0 <= i < w ==> #[trigger] row_next@[i] == passes_view(
                            reg,
                            blocks@,
                            dir,
                            u + i,
                            cv as int,
                            d,
                        ),
                    sweep_ok(
                        reg,
                        blocks@,
                        dir,
                        d,
                        visible@,
                        merged@,
                        qs,
                        pos,
                        u as int,
                        v as int,
                        w as int,
                        h + 1,
                    ),
                    rect_ok(reg, blocks@, dir, d, face, u as int, v as int, w as int, h + 1),
                    marked_row(
                        reg,
                        blocks@,
                        dir,
                        d,
                        vis_s,
                        merged_s,
                        u as int,
                        w as int,
                        cv as int,
                        0,
                    ) == marked_row(
                        reg,
                        blocks@,
                        dir,
                        d,
                        visible@,
                        merged@,
                        u as int,
                        w as int,
                        cv as int,
                        x as int,
                    ),
                    target == grown_v(
                        reg,
                        blocks@,
                        dir,
                        d,
                        vis_s,
                        merged_s,
                        face,
                        u as int,
                        v as int,
                        w as int,
                        h as int,
                    ),
                decreases w - x,
            {
                let index = (CHUNK_SIZE * cv + u + x) as usize;
                assert(index as int == lidx(u + x, cv as int));
                let ghost vis_before = visible@;
                let ghost merged_before = merged@;
                merged.set(index, true);
                visible.set(index, row_next[x as usize]);
                proof {
                    lemma_mark_merged(
                        reg,
                        blocks@,
                        dir,
                        d,
                        vis_before,
                        visible@,
                        merged_before,
                        merged@,
                        qs,
                        pos,
                        u as int,
                        v as int,
                        w as int,
                        h + 1,
                        face,
                        u + x,
                        cv as int,
                    );
                }
                x = x + 1;
            }
            h = h + 1;
        }
    }
    h
}


/// A finished rectangle becomes a quad of `qs`: the sweep state then holds
/// without a rectangle, and the quads stay sound.
pub(crate) proof fn lemma_emit(
    reg: &BlockRegistry,
    blocks: Seq<BlockId>,
    dir: FaceDir,
    d: int,
    visible: Seq<bool>,
    merged: Seq<bool>,
    qs: Seq<Quad>,
    pos: int,
    face: BlockFace,
    q: Quad,
    n: int,
)
    requires
        sweep_ok(reg, blocks, dir, d, visible, merged, qs, pos, q.u, q.v, q.w, q.h),
        rect_ok(reg, blocks, dir, d, face, q.u, q.v, q.w, q.h),
        quads_ok(reg, blocks, dir, qs),
        layers_covered(reg, blocks, dir, qs, n),
        q.dir == dir,
        q.d == d,
        q.texture_index == face.texture_index,
        quad_in_chunk(q),
    ensures
        sweep_ok(reg, blocks, dir, d, visible, merged, qs.push(q), pos, 0, 0, 0, 0),
        quads_ok(reg, blocks, dir, qs.push(q)),
        layers_covered(reg, blocks, dir, qs.push(q), n),
{
    lemma_covers_push(qs, q);
    let qs2 = qs.push(q);
    assert(qs2[qs.len() as int] == q);
    assert forall|u: int, v: int|
        0 <= u < CHUNK_SIZE && 0 <= v < CHUNK_SIZE && in_rect(q.u, q.v, q.w, q.h, u, v) implies covers(
        qs2,
        dir,
        u,
        v,
        d,
        visible_texture(reg, blocks, dir, u, v, d),
    ) by {
        assert(visible_face(reg, blocks, dir, u, v, d) == Some(face));
        assert(quad_covers(qs2[qs.len() as int], dir, u, v, d));
    }
    assert forall|k: int| 0 <= k < qs2.len() implies (#[trigger] qs2[k]).dir == dir && quad_in_chunk(
        qs2[k],
    ) && quad_sound(reg, blocks, qs2[k]) by {
        if k < qs.len() {
            assert(qs2[k] == qs[k]);
        } else {
            assert forall|u: int, v: int|
                q.u <= u < q.u + q.w && q.v <= v < q.v + q.h implies #[trigger] visible_face(
                reg,
                blocks,
                q.dir,
                u,
                v,
                q.d,
            ) == Some(BlockFace { texture_index: q.texture_index }) by {
                assert(in_rect(q.u, q.v, q.w, q.h, u, v));
            }
        }
    }
}

/// Appends the greedily merged quads of direction `dir`, sweeping the layers
/// from the side `dir` faces to the opposite side. Returns the quads added.
pub(crate) fn add_greedy_merged_faces(
    dst: &mut ChunkMeshData,
    reg: &BlockRegistry,
    input: &ChunkMeshInput,
    dir: FaceDir,
    Ghost(qs0): Ghost<Seq<Quad>>,
) -> (added: Ghost<Seq<Quad>>)
    requires
        mesh_of(old(dst), qs0, input.translation),
        qs0.len() <= 5 * CHUNK_SIZE_CUBED,
        input.blocks@.len() == CHUNK_SIZE_CUBED,
    ensures
        mesh_of(final(dst), qs0 + added@, input.translation),
        added@.len() <= CHUNK_SIZE_CUBED,
        quads_ok(reg, input.blocks@, dir, added@),
        layers_covered(reg, input.blocks@, dir, added@, CHUNK_SIZE as int),
        added@ == greedy_dir(reg, input.blocks@, dir),
{
    let ghost blocks = input.blocks@;
    let ghost t = input.translation;
    let ghost mut added: Seq<Quad> = Seq::empty();
    let mut visible = filled_layer(true);
    proof {
        assert forall|u: int, v: int|
            0 <= u < CHUNK_SIZE && 0 <= v < CHUNK_SIZE implies visible@[#[trigger] lidx(u, v)]
            == layer_exposed(reg, blocks, dir, u, v, dir.spec_layer_depth(0)) by {
            lemma_sweep_neighbor(dir, u, v, 0);
        }
        assert((qs0 + added) =~= qs0);
        assert(visible@ =~= Seq::new(1024, |i: int| true));
    }
    let mut layer_index: u32 = 0;
    while layer_index < CHUNK_SIZE
        invariant
            layer_index <= CHUNK_SIZE,
            blocks == input.blocks@,
            t == input.translation,
            blocks.len() == CHUNK_SIZE_CUBED,
            qs0.len() <= 5 * CHUNK_SIZE_CUBED,
            visible@.len() == CHUNK_SIZE_SQUARED,
            layer_index < CHUNK_SIZE ==> forall|u: int, v: int|
                0 <= u < CHUNK_SIZE && 0 <= v < CHUNK_SIZE ==> visible@[#[trigger] lidx(u, v)]
                    == layer_exposed(reg, blocks, dir, u, v, dir.spec_layer_depth(layer_index as int)),
            mesh_of(dst, qs0 + added, t),
            added.len() <= CHUNK_SIZE_SQUARED * layer_index,
            quads_ok(reg, blocks, dir, added),
            layers_covered(reg, blocks, dir, added, layer_index as int),
            (visible@, added) == swept_layers(reg, blocks, dir, layer_index as int),
        decreases CHUNK_SIZE - layer_index,
    {
        let layer_pos = dir.layer_depth(layer_index);
        let ghost d = layer_pos as int;
        let mut merged = filled_layer(false);
        let ghost vl = visible@;
        let ghost al = added;
        let ghost mfalse = Seq::new(1024, |i: int| false);
        assert(merged@ =~= mfalse);
        assert(swept_layer(reg, blocks, dir, d, vl, mfalse, 0).2 =~= Seq::<Quad>::empty());
        assert(al + Seq::<Quad>::empty() =~= al);
        let mut seed_v: u32 = 0;
        while seed_v < CHUNK_SIZE
            invariant
                layer_index < CHUNK_SIZE,
                seed_v <= CHUNK_SIZE,
                d == layer_pos as int,
                d == dir.spec_layer_depth(layer_index as int),
                0 <= d < CHUNK_SIZE,
                blocks == input.blocks@,
                t == input.translation,
                blocks.len() == CHUNK_SIZE_CUBED,
                qs0.len() <= 5 * CHUNK_SIZE_CUBED,
                sweep_ok(
                    reg,
                    blocks,
                    dir,
                    d,
                    visible@,
                    merged@,
                    added,
                    lidx(0, seed_v as int),
                    0,
                    0,
                    0,
                    0,
                ),
                mesh_of(dst, qs0 + added, t),
                added.len() <= CHUNK_SIZE_SQUARED * layer_index + lidx(0, seed_v as int),
                quads_ok(reg, blocks, dir, added),
                layers_covered(reg, blocks, dir, added, layer_index as int),
                (vl, al) == swept_layers(reg, blocks, dir, layer_index as int),
                mfalse == Seq::new(1024, |i: int| false),
                ({
                    let (vs, ms, qs) = swept_layer(
                        reg,
                        blocks,
                        dir,
                        d,
                        vl,
                        mfalse,
                        seed_v as int,
                    );
                    &&& visible@ == vs
                    &&& merged@ == ms
                    &&& added == al + qs
                }),
            decreases CHUNK_SIZE - seed_v,
        {
            let ghost vs = visible@;
            let ghost ms = merged@;
            let ghost aq = added;
            assert(aq + Seq::<Quad>::empty() =~= aq);
            let mut seed_u: u32 = 0;
            while seed_u < CHUNK_SIZE
                invariant
                    layer_index < CHUNK_SIZE,
                    seed_v < CHUNK_SIZE,
                    seed_u <= CHUNK_SIZE,
                    d == layer_pos as int,
                    d == dir.spec_layer_depth(layer_index as int),
                    0 <= d < CHUNK_SIZE,
                    blocks == input.blocks@,
                    t == input.translation,
                    blocks.len() == CHUNK_SIZE_CUBED,
                    qs0.len() <= 5 * CHUNK_SIZE_CUBED,
                    sweep_ok(
                        reg,
                        blocks,
                        dir,
                        d,
                        visible@,
                        merged@,
                        added,
                        lidx(seed_u as int, seed_v as int),
                        0,
                        0,
                        0,
                        0,
                    ),
                    mesh_of(dst, qs0 + added, t),
                    added.len() <= CHUNK_SIZE_SQUARED * layer_index + lidx(
                        seed_u as int,
                        seed_v as int,
                    ),
                    quads_ok(reg, blocks, dir, added),
                    layers_covered(reg, blocks, dir, added, layer_index as int),
                    (vl, al) == swept_layers(reg, blocks, dir, layer_index as int),
                    mfalse == Seq::new(1024, |i: int| false),
                    ({
                        let (vs2, ms2, qs) = swept_layer(
                            reg,
                            blocks,
                            dir,
                            d,
                            vl,
                            mfalse,
                            seed_v as int,
                        );
                        &&& vs == vs2
                        &&& ms == ms2
                        &&& aq == al + qs
                    }),
                    ({
                        let (vr, mr, qr) = swept_row(
                            reg,
                            blocks,
                            dir,
                            d,
                            vs,
                            ms,
                            seed_v as int,
                            seed_u as int,
                        );
                        &&& visible@ == vr
                        &&& merged@ == mr
                        &&& added == aq + qr
                    }),
                decreases CHUNK_SIZE - seed_u,
            {
                let new_added = take_seed(
                    dst,
                    reg,
                    input,
                    dir,
                    layer_pos,
                    &mut visible,
                    &mut merged,
                    seed_u,
                    seed_v,
                    Ghost(qs0),
                    Ghost(added),
                    Ghost(layer_index as int),
                );
                proof {
                    let (vr, mr, qr) = swept_row(
                        reg,
                        blocks,
                        dir,
                        d,
                        vs,
                        ms,
                        seed_v as int,
                        seed_u as int,
                    );
                    let qt = taken(
                        reg,
                        blocks,
                        dir,
                        d,
                        vr,
                        mr,
                        seed_u as int,
                        seed_v as int,
                    ).2;
                    assert(aq + qr + qt =~= aq + (qr + qt));
                    added = new_added@;
                }
                seed_u = seed_u + 1;
            }
            proof {
                let qs = swept_layer(reg, blocks, dir, d, vl, mfalse, seed_v as int).2;
                let qr = swept_row(reg, blocks, dir, d, vs, ms, seed_v as int, 32).2;
                assert(al + qs + qr =~= al + (qs + qr));
            }
            seed_v = seed_v + 1;
        }
        proof {
            assert forall|u: int, v: int, k: int|
                0 <= u < CHUNK_SIZE && 0 <= v < CHUNK_SIZE && 0 <= k < layer_index + 1
                    && (#[trigger] visible_face(
                    reg,
                    blocks,
                    dir,
                    u,
                    v,
                    dir.spec_layer_depth(k),
                )) is Some implies covers(
                added,
                dir,
                u,
                v,
                dir.spec_layer_depth(k),
                visible_texture(reg, blocks, dir, u, v, dir.spec_layer_depth(k)),
            ) by {
                if k == layer_index {
                    assert(lidx(u, v) < lidx(0, 32));
                }
            }
            if layer_index + 1 < CHUNK_SIZE {
                assert forall|u: int, v: int|
                    0 <= u < CHUNK_SIZE && 0 <= v < CHUNK_SIZE implies visible@[#[trigger] lidx(
                        u,
                        v,
                    )] == layer_exposed(
                    reg,
                    blocks,
                    dir,
                    u,
                    v,
                    dir.spec_layer_depth(layer_index + 1),
                ) by {
                    lemma_sweep_neighbor(dir, u, v, layer_index + 1);
                    assert(lidx(u, v) < lidx(0, 32));
                }
            }
        }
        layer_index = layer_index + 1;
    }
    Ghost(added)
}


/// Passing over a cell that was merged already keeps the sweep state.
pub(crate) proof fn lemma_skip_merged(
    reg: &BlockRegistry,
    blocks: Seq<BlockId>,
    dir: FaceDir,
    d: int,
    visible: Seq<bool>,
    merged: Seq<bool>,
    qs: Seq<Quad>,
    u: int,
    v: int,
)
    requires
        sweep_ok(reg, blocks, dir, d, visible, merged, qs, lidx(u, v), 0, 0, 0, 0),
        0 <= u < CHUNK_SIZE,
        0 <= v < CHUNK_SIZE,
        merged[lidx(u, v)],
    ensures
        sweep_ok(reg, blocks, dir, d, visible, merged, qs, lidx(u, v) + 1, 0, 0, 0, 0),
{
}

/// Taking an unmerged cell as a seed: its entry of `visible` held
/// whether it is exposed and now holds whether the cell behind it will be.
pub(crate) proof fn lemma_take_cell(
    reg: &BlockRegistry,
    blocks: Seq<BlockId>,
    dir: FaceDir,
    d: int,
    visible: Seq<bool>,
    visible2: Seq<bool>,
    merged: Seq<bool>,
    qs: Seq<Quad>,
    u: int,
    v: int,
)
    requires
        sweep_ok(reg, blocks, dir, d, visible, merged, qs, lidx(u, v), 0, 0, 0, 0),
        0 <= u < CHUNK_SIZE,
        0 <= v < CHUNK_SIZE,
        0 <= d < CHUNK_SIZE,
        !merged[lidx(u, v)],
        visible2 == visible.update(lidx(u, v), passes_view(reg, blocks, dir, u, v, d)),
    ensures
        visible[lidx(u, v)] == layer_exposed(reg, blocks, dir, u, v, d),
        sweep_ok(reg, blocks, dir, d, visible2, merged, qs, lidx(u, v) + 1, u, v, 1, 1),
        visible_face(reg, blocks, dir, u, v, d) is None ==> sweep_ok(
            reg,
            blocks,
            dir,
            d,
            visible2,
            merged,
            qs,
            lidx(u, v) + 1,
            0,
            0,
            0,
            0,
        ),
{
    assert forall|u2: int, v2: int|
        0 <= u2 < CHUNK_SIZE && 0 <= v2 < CHUNK_SIZE && lidx(u2, v2) != lidx(u, v) implies visible2[
        #[trigger] lidx(u2, v2)] == visible[lidx(u2, v2)] by {}
    assert(visible2[lidx(u, v)] == passes_view(reg, blocks, dir, u, v, d));
}

/// Takes the cell at (seed_u, seed_v) of layer `layer_pos` as the
/// origin of a new rectangle, unless it was merged already: when its face
/// is visible, grows the rectangle along U, then along V, and emits it.
pub(crate) fn take_seed(
    dst: &mut ChunkMeshData,
    reg: &BlockRegistry,
    input: &ChunkMeshInput,
    dir: FaceDir,
    layer_pos: u32,
    visible: &mut Vec<bool>,
    merged: &mut Vec<bool>,
    seed_u: u32,
    seed_v: u32,
    Ghost(qs0): Ghost<Seq<Quad>>,
    Ghost(added0): Ghost<Seq<Quad>>,
    Ghost(n): Ghost<int>,
) -> (added: Ghost<Seq<Quad>>)
    requires
        input.blocks@.len() == CHUNK_SIZE_CUBED,
        qs0.len() <= 5 * CHUNK_SIZE_CUBED,
        added0.len() < CHUNK_SIZE_CUBED,
        layer_pos < CHUNK_SIZE,
        seed_u < CHUNK_SIZE,
        seed_v < CHUNK_SIZE,
        sweep_ok(
            reg,
            input.blocks@,
            dir,
            layer_pos as int,
            old(visible)@,
            old(merged)@,
            added0,
            lidx(seed_u as int, seed_v as int),
            0,
            0,
            0,
            0,
        ),
        mesh_of(old(dst), qs0 + added0, input.translation),
        quads_ok(reg, input.blocks@, dir, added0),
        layers_covered(reg, input.blocks@, dir, added0, n),
    ensures
        sweep_ok(
            reg,
            input.blocks@,
            dir,
            layer_pos as int,
            final(visible)@,
            final(merged)@,
            added@,
            lidx(seed_u as int, seed_v as int) + 1,
            0,
            0,
            0,
            0,
        ),
        mesh_of(final(dst), qs0 + added@, input.translation),
        added@.len() <= added0.len() + 1,
        quads_ok(reg, input.blocks@, dir, added@),
        layers_covered(reg, input.blocks@, dir, added@, n),
        ({
            let (vis2, merged2, qs2) = taken(
                reg,
                input.blocks@,
                dir,
                layer_pos as int,
                old(visible)@,
                old(merged)@,
                seed_u as int,
                seed_v as int,
            );
            &&& final(visible)@ == vis2
            &&& final(merged)@ == merged2
            &&& added@ == added0 + qs2
        }),
{
    let ghost blocks = input.blocks@;
    let ghost d = layer_pos as int;
    let ghost mut added = added0;
    let seed_index = (seed_v * CHUNK_SIZE + seed_u) as usize;
    let ghost pos = lidx(seed_u as int, seed_v as int);
    assert(seed_index as int == pos);
    if merged[seed_index] {
        proof {
            lemma_skip_merged(reg, blocks, dir, d, visible@, merged@, added, seed_u as int, seed_v as int);
            assert(added0 + Seq::<Quad>::empty() =~= added0);
        }
        return Ghost(added);
    }
    let (x, y, z) = dir.rotate(seed_u, seed_v, layer_pos);
    let id = input.blocks[uvec3_to_chunk_index(LocalBlockPosition { x, y, z })];
    let seed_face = reg.face_of(id, dir);
    let seed_visible = visible[seed_index];
    let ghost vis_before = visible@;
    assert(block_at_uvd(blocks, dir, seed_u as int, seed_v as int, d) == id);
    visible.set(seed_index, reg.face_of(id, dir.opposite()).is_none());
    proof {
        lemma_take_cell(
            reg,
            blocks,
            dir,
            d,
            vis_before,
            visible@,
            merged@,
            added,
            seed_u as int,
            seed_v as int,
        );
    }
    match seed_face {
        Some(face) => {
            if !seed_visible {
                assert(added0 + Seq::<Quad>::empty() =~= added0);
                return Ghost(added);
            }
            assert(rect_ok(
                reg,
                blocks,
                dir,
                d,
                face,
                seed_u as int,
                seed_v as int,
                1,
                1,
            ));
            let w = grow_along_u(
                reg,
                input.blocks,
                visible,
                merged,
                dir,
                layer_pos,
                face,
                seed_u,
                seed_v,
                Ghost(added),
            );
            let h = grow_along_v(
                reg,
                input.blocks,
                visible,
                merged,
                dir,
                layer_pos,
                face,
                seed_u,
                seed_v,
                w,
                Ghost(added),
            );
            let ghost q = Quad {
                dir,
                u: seed_u as int,
                v: seed_v as int,
                d,
                w: w as int,
                h: h as int,
                texture_index: face.texture_index,
            };
            add_face(
                dst,
                dir,
                seed_u,
                seed_v,
                layer_pos,
                w,
                h,
                face.texture_index,
                input.translation,
                Ghost(qs0 + added),
            );
            proof {
                lemma_emit(reg, blocks, dir, d, visible@, merged@, added, pos + 1, face, q, n);
                assert((qs0 + added).push(q) =~= qs0 + added.push(q));
                assert(added.push(q) =~= added0 + seq![q]);
                added = added.push(q);
            }
        },
        None => {
            assert(added0 + Seq::<Quad>::empty() =~= added0);
        },
    }
    Ghost(added)
}


pub(crate) proof fn lemma_dir_done(reg: &BlockRegistry, blocks: Seq<BlockId>, dir: FaceDir, qs: Seq<Quad>)
    requires
        quads_ok(reg, blocks, dir, qs),
        layers_covered(reg, blocks, dir, qs, CHUNK_SIZE as int),
    ensures
        all_sound(reg, blocks, qs),
        dir_complete(reg, blocks, dir, qs),
{
    assert forall|u: int, v: int, d: int|
        0 <= u < CHUNK_SIZE && 0 <= v < CHUNK_SIZE && 0 <= d < CHUNK_SIZE && (#[trigger] visible_face(
            reg,
            blocks,
            dir,
            u,
            v,
            d,
        )) is Some implies covers(qs, dir, u, v, d, visible_texture(reg, blocks, dir, u, v, d)) by {
        let k = if dir.spec_negative() {
            d
        } else {
            CHUNK_SIZE - 1 - d
        };
        assert(dir.spec_layer_depth(k) == d);
    }
}

/// Builds the mesh of every exposed face, merging maximal rectangles of
/// equal visible faces layer by layer. Directions come in the order +X, +Y,
/// +Z, -X, -Y, -Z.
pub fn mesh_greedy(reg: &BlockRegistry, input: ChunkMeshInput) -> (r: ChunkMeshData)
    requires
        input.blocks@.len() == CHUNK_SIZE_CUBED,
    ensures
        mesh_of(&r, greedy_quads(reg, input.blocks@), input.translation),
        greedy_valid(reg, input.blocks@, greedy_quads(reg, input.blocks@)),
        forall|dir: FaceDir, u: int, v: int, d: int, tex: u32|
            #[trigger] covers(greedy_quads(reg, input.blocks@), dir, u, v, d, tex) <==> covers(
                culled_quads(reg, input.blocks@),
                dir,
                u,
                v,
                d,
                tex,
            ),
{
    let ghost blocks = input.blocks@;
    let mut result = ChunkMeshData::empty();
    proof {
        assert(result.vertices@ =~= mesh_vertices(Seq::<Quad>::empty(), input.translation));
        assert(result.indices@ =~= mesh_indices(0));
    }
    let ghost qs0: Seq<Quad> = seq![];
    let a1 = add_greedy_merged_faces(&mut result, reg, &input, FaceDir::PosX, Ghost(qs0));
    let ghost qs1 = qs0 + a1@;
    let a2 = add_greedy_merged_faces(&mut result, reg, &input, FaceDir::PosY, Ghost(qs1));
    let ghost qs2 = qs1 + a2@;
    let a3 = add_greedy_merged_faces(&mut result, reg, &input, FaceDir::PosZ, Ghost(qs2));
    let ghost qs3 = qs2 + a3@;
    let a4 = add_greedy_merged_faces(&mut result, reg, &input, FaceDir::NegX, Ghost(qs3));
    let ghost qs4 = qs3 + a4@;
    let a5 = add_greedy_merged_faces(&mut result, reg, &input, FaceDir::NegY, Ghost(qs4));
    let ghost qs5 = qs4 + a5@;
    let a6 = add_greedy_merged_faces(&mut result, reg, &input, FaceDir::NegZ, Ghost(qs5));
    let ghost qs6 = qs5 + a6@;
    proof {
        assert(qs1 =~= a1@);
        lemma_dir_done(reg, blocks, FaceDir::PosX, a1@);
        lemma_dir_done(reg, blocks, FaceDir::PosY, a2@);
        lemma_dir_done(reg, blocks, FaceDir::PosZ, a3@);
        lemma_dir_done(reg, blocks, FaceDir::NegX, a4@);
        lemma_dir_done(reg, blocks, FaceDir::NegY, a5@);
        lemma_dir_done(reg, blocks, FaceDir::NegZ, a6@);
        lemma_six_dirs(reg, blocks, a1@, a2@, a3@, a4@, a5@, a6@);
        assert(qs6 =~= greedy_quads(reg, blocks));
        lemma_same_surface(reg, blocks, qs6);
        assert(greedy_valid(reg, blocks, qs6));
        assert(mesh_of(&result, qs6, input.translation));
    }
    result
}


/// Greedy meshing is deterministic: two meshes that both meet its contract
/// for the same blocks and translation hold identical buffers.
pub proof fn lemma_greedy_deterministic(
    reg: &BlockRegistry,
    blocks: Seq<BlockId>,
    t: (i32, i32, i32),
    m1: &ChunkMeshData,
    m2: &ChunkMeshData,
)
    requires
        mesh_of(m1, greedy_quads(reg, blocks), t),
        mesh_of(m2, greedy_quads(reg, blocks), t),
    ensures
        m1.vertices@ == m2.vertices@,
        m1.indices@ == m2.indices@,
{
}

} // verus!
