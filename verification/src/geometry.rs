//! Tile geometry generation: placing each tile's rotated model at its world
//! position, and feeding whole render passes into the sprite batcher in the
//! two-pass, texture-grouped order (all floor-textured geometry first, then
//! all wall-textured geometry).

use vstd::prelude::*;

use crate::map::{chunk_wf, map_wf, ChunkModel, TileMap};
use crate::models::{lemma_model_tables, model_indices, model_verts, vert_local};
use crate::spritebatch::{fold_pushes, push_base, PushCall, Spritebatch, SpritebatchModel};
use crate::tile::{rotated_vertex, Model, Tile, TileRotation};
use crate::vertex::{TextureHandle, Vertex, COORD_SCALE, SELECT_LIFT};

verus! {

/// A model vertex rotated by the tile's rotation and translated to the
/// tile's place in the world: the tile's coordinates scaled to subunits,
/// its height on the vertical axis, and the selection lift when the tile is
/// the selected one.
pub open spec fn placed_vertex(
    rot: TileRotation,
    v: Vertex,
    wx: int,
    wy: int,
    h: u8,
    lift: bool,
) -> Vertex {
    let r = rotated_vertex(rot, v);
    Vertex {
        pos_x: (r.pos_x + 1000 * wx) as i64,
        pos_y: (r.pos_y + 1000 * (h as int) + if lift {
            250int
        } else {
            0int
        }) as i64,
        pos_z: (r.pos_z + 1000 * wy) as i64,
        tex_u: r.tex_u,
        tex_v: r.tex_v,
    }
}

/// A whole model placed at a tile's world position.
pub open spec fn placed_model_verts(
    model: Model,
    rot: TileRotation,
    wx: int,
    wy: int,
    h: u8,
    lift: bool,
) -> Seq<Vertex> {
    model_verts(model).map_values(|v: Vertex| placed_vertex(rot, v, wx, wy, h, lift))
}

/// The push one tile contributes to a pass: the placed model and the
/// model's own index table, under the pass's texture.
pub open spec fn tile_call(
    model: Model,
    t: Tile,
    wx: int,
    wy: int,
    lift: bool,
    tex: TextureHandle,
) -> PushCall<Vertex> {
    PushCall {
        verts: placed_model_verts(model, t.rotation, wx, wy, t.height, lift),
        idxs: model_indices(model),
        texture: tex,
    }
}

/// Whether a tile renders in the floor-textured pass (floors, and the floor
/// backing under corners) or in the wall-textured pass (everything that is
/// not a floor).
pub open spec fn in_pass(m: Model, floor_pass: bool) -> bool {
    if floor_pass {
        m is Floor || m is Corner
    } else {
        !(m is Floor)
    }
}

/// The model a pass renders for a tile: the floor pass draws the floor
/// backing, the wall pass draws the tile's own model.
pub open spec fn pass_model(m: Model, floor_pass: bool) -> Model {
    if floor_pass {
        Model::Floor
    } else {
        m
    }
}

/// The vertices a tile costs a pass: the placed model's vertex count, or
/// nothing when the tile is not in the pass.
pub open spec fn tile_cost(t: Tile, floor_pass: bool) -> int {
    if in_pass(t.model, floor_pass) {
        model_verts(pass_model(t.model, floor_pass)).len() as int
    } else {
        0
    }
}

/// The summed vertex cost of a run of tiles in one pass.
pub open spec fn tiles_cost(ts: Seq<Tile>, floor_pass: bool) -> int
    decreases ts.len(),
{
    if ts.len() == 0 {
        0
    } else {
        tiles_cost(ts.drop_last(), floor_pass) + tile_cost(ts.last(), floor_pass)
    }
}

/// The summed vertex cost of a run of chunks in one pass.
pub open spec fn chunks_cost(cs: Seq<ChunkModel>, floor_pass: bool) -> int
    decreases cs.len(),
{
    if cs.len() == 0 {
        0
    } else {
        chunks_cost(cs.drop_last(), floor_pass) + tiles_cost(cs.last().tiles, floor_pass)
    }
}

/// The pushes of one pass over the chunks before `ci`, and the first `n`
/// tiles of chunk `ci`, in row-major order.
pub open spec fn pass_calls_upto(
    cs: Seq<ChunkModel>,
    sel: (i64, i64),
    floor_pass: bool,
    tex: TextureHandle,
    ci: int,
    n: int,
) -> Seq<PushCall<Vertex>>
    decreases ci, n,
{
    if ci < 0 || n < 0 {
        Seq::empty()
    } else if n == 0 {
        if ci == 0 {
            Seq::empty()
        } else {
            pass_calls_upto(cs, sel, floor_pass, tex, ci - 1, 1024)
        }
    } else {
        let prev = pass_calls_upto(cs, sel, floor_pass, tex, ci, n - 1);
        let t = cs[ci].tiles[n - 1];
        let wx = cs[ci].x * 32 + (n - 1) % 32;
        let wy = cs[ci].y * 32 + (n - 1) / 32;
        let lift = sel.0 == wx && sel.1 == wy;
        if in_pass(t.model, floor_pass) {
            prev.push(tile_call(pass_model(t.model, floor_pass), t, wx, wy, lift, tex))
        } else {
            prev
        }
    }
}

/// The pushes of one whole pass over the grid.
pub open spec fn pass_calls(
    cs: Seq<ChunkModel>,
    sel: (i64, i64),
    floor_pass: bool,
    tex: TextureHandle,
) -> Seq<PushCall<Vertex>> {
    pass_calls_upto(cs, sel, floor_pass, tex, cs.len() as int, 0)
}

/// Every push a frame makes for the grid: the whole floor-textured pass,
/// then the whole wall-textured pass.
pub open spec fn scene_calls(
    cs: Seq<ChunkModel>,
    sel: (i64, i64),
    grass: TextureHandle,
    wall: TextureHandle,
) -> Seq<PushCall<Vertex>> {
    pass_calls(cs, sel, true, grass) + pass_calls(cs, sel, false, wall)
}

/// Every push of one pass carries that pass's texture handle.
pub proof fn lemma_pass_calls_texture(
    cs: Seq<ChunkModel>,
    sel: (i64, i64),
    floor_pass: bool,
    tex: TextureHandle,
    ci: int,
    n: int,
)
    ensures
        forall|k: int|
            0 <= k < pass_calls_upto(cs, sel, floor_pass, tex, ci, n).len() ==> (
            #[trigger] pass_calls_upto(cs, sel, floor_pass, tex, ci, n)[k]).texture == tex,
    decreases ci, n,
{
    if ci < 0 || n < 0 {
    } else if n == 0 {
        if ci > 0 {
            lemma_pass_calls_texture(cs, sel, floor_pass, tex, ci - 1, 1024);
            let prev = pass_calls_upto(cs, sel, floor_pass, tex, ci - 1, 1024);
            let cur = pass_calls_upto(cs, sel, floor_pass, tex, ci, n);
            assert(cur == prev);
            assert forall|k: int| 0 <= k < cur.len() implies (#[trigger] cur[k]).texture
                == tex by {
                assert(cur[k] == prev[k]);
            }
        }
    } else {
        lemma_pass_calls_texture(cs, sel, floor_pass, tex, ci, n - 1);
        let prev = pass_calls_upto(cs, sel, floor_pass, tex, ci, n - 1);
        let cur = pass_calls_upto(cs, sel, floor_pass, tex, ci, n);
        assert forall|k: int| 0 <= k < cur.len() implies (#[trigger] cur[k]).texture == tex by {
            if k < prev.len() {
                assert(cur[k] == prev[k]);
            } else {
                assert(cur[k].texture == tex);
            }
        }
    }
}

/// A tile's cost is small and non-negative: at most four vertices in the
/// floor pass, at most eleven in the wall pass.
pub proof fn lemma_tile_cost_bound(t: Tile, floor_pass: bool)
    ensures
        0 <= tile_cost(t, floor_pass),
        floor_pass ==> tile_cost(t, floor_pass) <= 4,
        !floor_pass ==> tile_cost(t, floor_pass) <= 11,
{
    lemma_model_tables(pass_model(t.model, floor_pass));
}

/// Tile runs have non-negative cost.
pub proof fn lemma_tiles_cost_nonneg(ts: Seq<Tile>, floor_pass: bool)
    ensures
        0 <= tiles_cost(ts, floor_pass),
    decreases ts.len(),
{
    if ts.len() > 0 {
        lemma_tiles_cost_nonneg(ts.drop_last(), floor_pass);
        lemma_tile_cost_bound(ts.last(), floor_pass);
    }
}

/// A prefix of a tile run costs no more than the whole run.
pub proof fn lemma_tiles_cost_prefix(ts: Seq<Tile>, n: int, floor_pass: bool)
    requires
        0 <= n <= ts.len(),
    ensures
        tiles_cost(ts.take(n), floor_pass) <= tiles_cost(ts, floor_pass),
    decreases ts.len() - n,
{
    if n == ts.len() {
        assert(ts.take(n) =~= ts);
    } else {
        lemma_tiles_cost_prefix(ts, n + 1, floor_pass);
        assert(ts.take(n + 1).drop_last() =~= ts.take(n));
        assert(ts.take(n + 1).last() == ts[n]);
        lemma_tile_cost_bound(ts[n], floor_pass);
    }
}

/// One more tile extends a prefix's cost by that tile's cost.
pub proof fn lemma_tiles_cost_step(ts: Seq<Tile>, n: int, floor_pass: bool)
    requires
        0 <= n < ts.len(),
    ensures
        tiles_cost(ts.take(n + 1), floor_pass) == tiles_cost(ts.take(n), floor_pass) + tile_cost(
            ts[n],
            floor_pass,
        ),
{
    assert(ts.take(n + 1).drop_last() =~= ts.take(n));
    assert(ts.take(n + 1).last() == ts[n]);
}

/// Chunk runs have non-negative cost.
pub proof fn lemma_chunks_cost_nonneg(cs: Seq<ChunkModel>, floor_pass: bool)
    ensures
        0 <= chunks_cost(cs, floor_pass),
    decreases cs.len(),
{
    if cs.len() > 0 {
        lemma_chunks_cost_nonneg(cs.drop_last(), floor_pass);
        lemma_tiles_cost_nonneg(cs.last().tiles, floor_pass);
    }
}

/// One more chunk extends a prefix's cost by that chunk's tiles' cost.
pub proof fn lemma_chunks_cost_step(cs: Seq<ChunkModel>, i: int, floor_pass: bool)
    requires
        0 <= i < cs.len(),
    ensures
        chunks_cost(cs.take(i + 1), floor_pass) == chunks_cost(cs.take(i), floor_pass)
            + tiles_cost(cs[i].tiles, floor_pass),
{
    assert(cs.take(i + 1).drop_last() =~= cs.take(i));
    assert(cs.take(i + 1).last() == cs[i]);
}

/// A prefix of a chunk run costs no more than the whole run.
pub proof fn lemma_chunks_cost_prefix(cs: Seq<ChunkModel>, i: int, floor_pass: bool)
    requires
        0 <= i <= cs.len(),
    ensures
        chunks_cost(cs.take(i), floor_pass) <= chunks_cost(cs, floor_pass),
    decreases cs.len() - i,
{
    if i == cs.len() {
        assert(cs.take(i) =~= cs);
    } else {
        lemma_chunks_cost_prefix(cs, i + 1, floor_pass);
        lemma_chunks_cost_step(cs, i, floor_pass);
        lemma_tiles_cost_nonneg(cs[i].tiles, floor_pass);
    }
}

/// Replacing one tile moves a run's cost by the difference of the two
/// tiles' costs.
pub proof fn lemma_tiles_cost_update(ts: Seq<Tile>, j: int, t: Tile, floor_pass: bool)
    requires
        0 <= j < ts.len(),
    ensures
        tiles_cost(ts.update(j, t), floor_pass) == tiles_cost(ts, floor_pass) - tile_cost(
            ts[j],
            floor_pass,
        ) + tile_cost(t, floor_pass),
    decreases ts.len(),
{
    let up = ts.update(j, t);
    if j == ts.len() - 1 {
        assert(up.drop_last() =~= ts.drop_last());
        assert(up.last() == t);
    } else {
        assert(up.drop_last() =~= ts.drop_last().update(j, t));
        assert(up.last() == ts.last());
        lemma_tiles_cost_update(ts.drop_last(), j, t, floor_pass);
    }
}

/// Replacing one chunk's tiles moves the grid's cost by the difference of
/// the two tile runs' costs.
pub proof fn lemma_chunks_cost_update(
    cs: Seq<ChunkModel>,
    i: int,
    c: ChunkModel,
    floor_pass: bool,
)
    requires
        0 <= i < cs.len(),
    ensures
        chunks_cost(cs.update(i, c), floor_pass) == chunks_cost(cs, floor_pass) - tiles_cost(
            cs[i].tiles,
            floor_pass,
        ) + tiles_cost(c.tiles, floor_pass),
    decreases cs.len(),
{
    let up = cs.update(i, c);
    if i == cs.len() - 1 {
        assert(up.drop_last() =~= cs.drop_last());
        assert(up.last() == c);
    } else {
        assert(up.drop_last() =~= cs.drop_last().update(i, c));
        assert(up.last() == cs.last());
        lemma_chunks_cost_update(cs.drop_last(), i, c, floor_pass);
    }
}

/// Whether this tile belongs to the given pass.
fn in_pass_exec(m: Model, floor_pass: bool) -> (r: bool)
    ensures
        r == in_pass(m, floor_pass),
{
    if floor_pass {
        match m {
            Model::Floor => true,
            Model::Corner => true,
            _ => false,
        }
    } else {
        match m {
            Model::Floor => false,
            _ => true,
        }
    }
}

/// Place a model's vertex table at a tile's world position.
fn place_model_verts(
    mverts: &Vec<Vertex>,
    rot: TileRotation,
    wx: i64,
    wy: i64,
    h: u8,
    lift: bool,
) -> (r: Vec<Vertex>)
    requires
        forall|k: int| 0 <= k < mverts@.len() ==> vert_local(#[trigger] mverts@[k]),
        -0x10_0000_0000_0000 <= wx <= 0x10_0000_0000_0000,
        -0x10_0000_0000_0000 <= wy <= 0x10_0000_0000_0000,
    ensures
        r@ == mverts@.map_values(|v: Vertex| placed_vertex(rot, v, wx as int, wy as int, h, lift)),
{
    let ghost target = mverts@.map_values(
        |v: Vertex| placed_vertex(rot, v, wx as int, wy as int, h, lift),
    );
    let mut out: Vec<Vertex> = Vec::new();
    let mut k: usize = 0;
    while k < mverts.len()
        invariant
            0 <= k <= mverts@.len(),
            target == mverts@.map_values(
                |v: Vertex| placed_vertex(rot, v, wx as int, wy as int, h, lift),
            ),
            forall|j: int| 0 <= j < mverts@.len() ==> vert_local(#[trigger] mverts@[j]),
            -0x10_0000_0000_0000 <= wx <= 0x10_0000_0000_0000,
            -0x10_0000_0000_0000 <= wy <= 0x10_0000_0000_0000,
            out@ == target.take(k as int),
        decreases mverts@.len() - k,
    {
        let v = mverts[k];
        let rv = rot.rotate_vertice(&v);
        proof {
            lemma_rotated_local(rot, v);
        }
        let lift_amount: i64 = if lift {
            SELECT_LIFT
        } else {
            0
        };
        let placed = Vertex {
            pos_x: rv.pos_x + COORD_SCALE * wx,
            pos_y: rv.pos_y + COORD_SCALE * (h as i64) + lift_amount,
            pos_z: rv.pos_z + COORD_SCALE * wy,
            tex_u: rv.tex_u,
            tex_v: rv.tex_v,
        };
        out.push(placed);
        proof {
            assert(placed == placed_vertex(rot, v, wx as int, wy as int, h, lift));
            assert(target.take(k + 1) =~= target.take(k as int).push(target[k as int]));
        }
        k += 1;
    }
    proof {
        assert(target.take(mverts@.len() as int) =~= target);
    }
    out
}

/// Rotation keeps a local vertex local: the quarter turn permutes and
/// negates horizontal coordinates only.
proof fn lemma_rotated_local(rot: TileRotation, v: Vertex)
    requires
        vert_local(v),
    ensures
        vert_local(rotated_vertex(rot, v)),
{
}

/// Push one whole pass over the grid into the batcher, in row-major,
/// chunk-by-chunk order. The pass's texture must differ from whatever batch
/// is open, so the pass's own geometry is the only pending run it grows.
pub fn push_pass(
    sb: &mut Spritebatch<Vertex>,
    map: &TileMap,
    sel_x: i64,
    sel_y: i64,
    floor_pass: bool,
    tex: TextureHandle,
)
    requires
        old(sb).wf(),
        map.wf(),
        chunks_cost(map@, floor_pass) <= 65535,
        match old(sb).current_texture {
            Some(t) => t.id != tex.id,
            None => true,
        },
    ensures
        final(sb).wf(),
        final(sb)@ == fold_pushes(
            old(sb)@,
            pass_calls(map@, (sel_x, sel_y), floor_pass, tex),
        ),
        final(sb).current_texture == old(sb).current_texture || final(sb).current_texture
            == Some(tex),
{
    let ghost cs = map@;
    let ghost sel = (sel_x, sel_y);
    let ghost m0 = old(sb)@;
    let mut ci: usize = 0;
    while ci < map.0.len()
        invariant
            sb.wf(),
            map.wf(),
            cs == map@,
            sel == (sel_x, sel_y),
            m0 == old(sb)@,
            chunks_cost(cs, floor_pass) <= 65535,
            match m0.current {
                Some(t) => t.id != tex.id,
                None => m0.vertices.len() == 0,
            },
            0 <= ci <= cs.len(),
            sb@ == fold_pushes(m0, pass_calls_upto(cs, sel, floor_pass, tex, ci as int, 0)),
            pass_calls_upto(cs, sel, floor_pass, tex, ci as int, 0).len() == 0 ==> sb@ == m0,
            pass_calls_upto(cs, sel, floor_pass, tex, ci as int, 0).len() > 0 ==> (
            sb.current_texture == Some(tex) && sb.vertices@.len() <= chunks_cost(
                cs.take(ci as int),
                floor_pass,
            )),
        decreases cs.len() - ci,
    {
        let ghost calls0 = pass_calls_upto(cs, sel, floor_pass, tex, ci as int, 0);
        let cx = chunk_x_of(map, ci);
        let cy = chunk_y_of(map, ci);
        let mut n: usize = 0;
        while n < 1024
            invariant
                sb.wf(),
                map.wf(),
                cs == map@,
                sel == (sel_x, sel_y),
                m0 == old(sb)@,
                chunks_cost(cs, floor_pass) <= 65535,
                match m0.current {
                    Some(t) => t.id != tex.id,
                    None => m0.vertices.len() == 0,
                },
                0 <= ci < cs.len(),
                0 <= n <= 1024,
                cx == cs[ci as int].x,
                cy == cs[ci as int].y,
                calls0 == pass_calls_upto(cs, sel, floor_pass, tex, ci as int, 0),
                sb@ == fold_pushes(
                    m0,
                    pass_calls_upto(cs, sel, floor_pass, tex, ci as int, n as int),
                ),
                pass_calls_upto(cs, sel, floor_pass, tex, ci as int, n as int).len() == 0
                    ==> sb@ == m0,
                pass_calls_upto(cs, sel, floor_pass, tex, ci as int, n as int).len() > 0 ==> (
                sb.current_texture == Some(tex) && sb.vertices@.len() <= chunks_cost(
                    cs.take(ci as int),
                    floor_pass,
                ) + tiles_cost(cs[ci as int].tiles.take(n as int), floor_pass)),
            decreases 1024 - n,
        {
            let t = tile_of(map, ci, n);
            if in_pass_exec(t.model, floor_pass) {
                let model = if floor_pass {
                    Model::Floor
                } else {
                    t.model
                };
                let (mverts, midxs) = model.get_model();
                let lx = n % 32;
                let ly = n / 32;
                let wx: i64 = cx * 32 + lx as i64;
                let wy: i64 = cy * 32 + ly as i64;
                let lift = sel_x == wx && sel_y == wy;
                proof {
                    lemma_model_tables(model);
                    lemma_chunks_cost_prefix(cs, ci as int + 1, floor_pass);
                    lemma_chunks_cost_step(cs, ci as int, floor_pass);
                    lemma_tiles_cost_prefix(cs[ci as int].tiles, n as int + 1, floor_pass);
                    lemma_tiles_cost_step(cs[ci as int].tiles, n as int, floor_pass);
                    lemma_tiles_cost_nonneg(cs[ci as int].tiles.take(n as int), floor_pass);
                    lemma_chunks_cost_nonneg(cs.take(ci as int), floor_pass);
                    assert(tile_cost(cs[ci as int].tiles[n as int], floor_pass) == model_verts(
                        model,
                    ).len());
                }
                let placed = place_model_verts(&mverts, t.rotation, wx, wy, t.height, lift);
                let ghost calls_n = pass_calls_upto(cs, sel, floor_pass, tex, ci as int, n as int);
                sb.push(placed.as_slice(), midxs.as_slice(), tex);
                proof {
                    let c = tile_call(model, cs[ci as int].tiles[n as int], wx as int, wy as int, lift, tex);
                    assert(placed@ == c.verts);
                    assert(midxs@ == c.idxs);
                    let calls_n1 = pass_calls_upto(cs, sel, floor_pass, tex, ci as int, n as int + 1);
                    assert(calls_n1 == calls_n.push(c));
                    assert(calls_n.push(c).drop_last() =~= calls_n);
                    assert(sb@ == fold_pushes(m0, calls_n1));
                }
            } else {
                proof {
                    assert(pass_calls_upto(cs, sel, floor_pass, tex, ci as int, n as int + 1)
                        == pass_calls_upto(cs, sel, floor_pass, tex, ci as int, n as int));
                    assert(cs[ci as int].tiles.len() == 1024);
                    lemma_tiles_cost_step(cs[ci as int].tiles, n as int, floor_pass);
                }
            }
            n += 1;
        }
        proof {
            assert(pass_calls_upto(cs, sel, floor_pass, tex, ci as int + 1, 0)
                == pass_calls_upto(cs, sel, floor_pass, tex, ci as int, 1024));
            lemma_chunks_cost_step(cs, ci as int, floor_pass);
            assert(cs[ci as int].tiles.take(1024) =~= cs[ci as int].tiles);
        }
        ci += 1;
    }
    proof {
        assert(pass_calls(cs, sel, floor_pass, tex) == pass_calls_upto(
            cs,
            sel,
            floor_pass,
            tex,
            cs.len() as int,
            0,
        ));
    }
}

/// Read a chunk's x coordinate.
fn chunk_x_of(map: &TileMap, ci: usize) -> (r: i64)
    requires
        ci < map.0@.len(),
    ensures
        r == map@[ci as int].x,
{
    map.0[ci].x
}

/// Read a chunk's y coordinate.
fn chunk_y_of(map: &TileMap, ci: usize) -> (r: i64)
    requires
        ci < map.0@.len(),
    ensures
        r == map@[ci as int].y,
{
    map.0[ci].y
}

/// Read one tile of a chunk.
fn tile_of(map: &TileMap, ci: usize, n: usize) -> (t: Tile)
    requires
        map.wf(),
        ci < map.0@.len(),
        n < 1024,
    ensures
        t == map@[ci as int].tiles[n as int],
{
    map.0[ci].tiles[n]
}

/// Whether a frame's geometry for this grid fits the batcher's 16-bit index
/// space in both passes, with headroom for one tile edit: the floor pass
/// may grow by one floor backing (four vertices), the wall pass by one wall
/// piece (eleven).
pub fn fits_budget(map: &TileMap) -> (r: bool)
    requires
        map.wf(),
    ensures
        r == (chunks_cost(map@, true) + 4 <= 65535 && chunks_cost(map@, false) + 11 <= 65535),
{
    let ghost cs = map@;
    let mut fsum: u32 = 0;
    let mut wsum: u32 = 0;
    let mut ci: usize = 0;
    while ci < map.0.len()
        invariant
            map.wf(),
            cs == map@,
            0 <= ci <= cs.len(),
            fsum == chunks_cost(cs.take(ci as int), true),
            wsum == chunks_cost(cs.take(ci as int), false),
            fsum + 4 <= 65535,
            wsum + 11 <= 65535,
        decreases cs.len() - ci,
    {
        let mut n: usize = 0;
        while n < 1024
            invariant
                map.wf(),
                cs == map@,
                0 <= ci < cs.len(),
                0 <= n <= 1024,
                fsum == chunks_cost(cs.take(ci as int), true) + tiles_cost(
                    cs[ci as int].tiles.take(n as int),
                    true,
                ),
                wsum == chunks_cost(cs.take(ci as int), false) + tiles_cost(
                    cs[ci as int].tiles.take(n as int),
                    false,
                ),
                fsum + 4 <= 65535,
                wsum + 11 <= 65535,
            decreases 1024 - n,
        {
            let t = tile_of(map, ci, n);
            let fc: u32 = match t.model {
                Model::Floor => 4,
                Model::Corner => 4,
                _ => 0,
            };
            let wc: u32 = match t.model {
                Model::Floor => 0,
                Model::Wall => 8,
                Model::Corner => 11,
                Model::InnerCorner => 11,
            };
            proof {
                lemma_model_tables(pass_model(t.model, true));
                lemma_model_tables(pass_model(t.model, false));
                assert(fc == tile_cost(cs[ci as int].tiles[n as int], true));
                assert(wc == tile_cost(cs[ci as int].tiles[n as int], false));
                lemma_tiles_cost_step(cs[ci as int].tiles, n as int, true);
                lemma_tiles_cost_step(cs[ci as int].tiles, n as int, false);
            }
            fsum = fsum + fc;
            wsum = wsum + wc;
            if fsum + 4 > 65535 || wsum + 11 > 65535 {
                proof {
                    lemma_prefix_exceeds(cs, ci as int, n as int + 1);
                }
                return false;
            }
            n += 1;
        }
        proof {
            lemma_chunks_cost_step(cs, ci as int, true);
            lemma_chunks_cost_step(cs, ci as int, false);
            assert(cs[ci as int].tiles.take(1024) =~= cs[ci as int].tiles);
        }
        ci += 1;
    }
    proof {
        assert(cs.take(cs.len() as int) =~= cs);
    }
    true
}

/// A partial sum that already exceeds a bound decides the total: the
/// remaining tiles only add non-negative cost.
proof fn lemma_prefix_exceeds(cs: Seq<ChunkModel>, ci: int, n: int)
    requires
        0 <= ci < cs.len(),
        0 <= n <= 1024,
        map_wf(cs),
    ensures
        chunks_cost(cs.take(ci), true) + tiles_cost(cs[ci].tiles.take(n), true) <= chunks_cost(
            cs,
            true,
        ),
        chunks_cost(cs.take(ci), false) + tiles_cost(cs[ci].tiles.take(n), false) <= chunks_cost(
            cs,
            false,
        ),
{
    assert(cs[ci].tiles.len() == 1024);
    lemma_tiles_cost_prefix(cs[ci].tiles, n, true);
    lemma_tiles_cost_prefix(cs[ci].tiles, n, false);
    lemma_chunks_cost_step(cs, ci, true);
    lemma_chunks_cost_step(cs, ci, false);
    lemma_chunks_cost_prefix(cs, ci + 1, true);
    lemma_chunks_cost_prefix(cs, ci + 1, false);
}

} // verus!
