//! The editor scene: the grid, the selection cursor, and the edge-triggered
//! edit intents, applied once per tick in a fixed order, after which the
//! whole grid's geometry is regenerated and batched for the renderer.

use vstd::prelude::*;

use crate::codec::{map_bytes, parse_map, MapDecodeError};
use crate::geometry::{
    chunks_cost, lemma_pass_calls_texture, lemma_tile_cost_bound, pass_calls, push_pass,
    scene_calls, tile_cost,
};
use crate::map::{
    chunk_coord, first_chunk, first_chunk_from, map_wf, tile_at, tile_index, update_tile,
    ChunkModel, TileMap,
};
use crate::map::coordinate_to_chunk;
use crate::map::local_coord;
use crate::spritebatch::{
    empty_model, lemma_fold_append, spec_drain, state_after, Batch, BatchModel, Spritebatch,
};
use crate::tile::{rotate_next_spec, swap_model_spec, Tile};
use crate::vertex::{TextureHandle, Vertex};

verus! {

/// The editor's intents, each bound to one input key.
#[derive(Clone, Copy, Debug, PartialEq, Eq, Structural)]
pub enum Key {
    MoveUp,
    MoveLeft,
    MoveDown,
    MoveRight,
    SaveMap,
    Raise,
    Lower,
    SwapModel,
    RotateTile,
}

/// The whole editor state.
pub struct Scene {
    pub spritebatch: Spritebatch<Vertex>,
    pub grass_texture: TextureHandle,
    pub ground_wall_texture: TextureHandle,
    pub move_select_left: bool,
    pub move_select_right: bool,
    pub move_select_up: bool,
    pub move_select_down: bool,
    pub save_map_return: bool,
    pub raise: bool,
    pub lower: bool,
    pub swap_model: bool,
    pub rotate_tile: bool,
    pub selected: (i64, i64),
    pub chunks: TileMap,
}

/// What one tick hands back: the frame's batches, and the serialized map
/// when a save was requested.
pub struct FrameOutput {
    pub batches: Vec<Batch<Vertex>>,
    pub saved: Option<Vec<u8>>,
}

/// One step down, stopping at the representable minimum.
pub open spec fn sat_dec(v: i64) -> i64 {
    if v > i64::MIN {
        (v - 1) as i64
    } else {
        v
    }
}

/// One step up, stopping at the representable maximum.
pub open spec fn sat_inc(v: i64) -> i64 {
    if v < i64::MAX {
        (v + 1) as i64
    } else {
        v
    }
}

/// Where the cursor lands after this tick's movement intents.
pub open spec fn moved_selected(s: Scene) -> (i64, i64) {
    let y0 = s.selected.1;
    let y1 = if s.move_select_up {
        sat_dec(y0)
    } else {
        y0
    };
    let y2 = if s.move_select_down {
        sat_inc(y1)
    } else {
        y1
    };
    let x0 = s.selected.0;
    let x1 = if s.move_select_left {
        sat_dec(x0)
    } else {
        x0
    };
    let x2 = if s.move_select_right {
        sat_inc(x1)
    } else {
        x1
    };
    (x2, y2)
}

/// A tile one step taller; height saturates at its maximum.
pub open spec fn raised(t: Tile) -> Tile {
    Tile {
        height: if t.height < 255 {
            (t.height + 1) as u8
        } else {
            t.height
        },
        model: t.model,
        rotation: t.rotation,
    }
}

/// A tile one step shorter; height saturates at zero.
pub open spec fn lowered(t: Tile) -> Tile {
    Tile {
        height: if t.height > 0 {
            (t.height - 1) as u8
        } else {
            t.height
        },
        model: t.model,
        rotation: t.rotation,
    }
}

/// A tile with the next model on the swap ring.
pub open spec fn swapped(t: Tile) -> Tile {
    Tile { height: t.height, model: swap_model_spec(t.model), rotation: t.rotation }
}

/// A tile turned one more quarter turn.
pub open spec fn rotated_tile(t: Tile) -> Tile {
    Tile { height: t.height, model: t.model, rotation: rotate_next_spec(t.rotation) }
}

/// Raising a tile already at the top leaves it there, and lowering a tile
/// already at the ground leaves it there.
pub proof fn lemma_height_saturation(t: Tile)
    ensures
        t.height == 255 ==> raised(t) == t,
        t.height == 0 ==> lowered(t) == t,
{
}

/// The grid after a raise intent at (x, y): a missing chunk makes the edit
/// a silent no-op.
pub open spec fn edit_raise(cs: Seq<ChunkModel>, x: int, y: int, flag: bool) -> Seq<ChunkModel> {
    if !flag {
        cs
    } else {
        match tile_at(cs, x, y) {
            None => cs,
            Some(t) => update_tile(cs, x, y, raised(t)),
        }
    }
}

/// The grid after a lower intent at (x, y).
pub open spec fn edit_lower(cs: Seq<ChunkModel>, x: int, y: int, flag: bool) -> Seq<ChunkModel> {
    if !flag {
        cs
    } else {
        match tile_at(cs, x, y) {
            None => cs,
            Some(t) => update_tile(cs, x, y, lowered(t)),
        }
    }
}

/// The grid after a model-swap intent at (x, y).
pub open spec fn edit_swap(cs: Seq<ChunkModel>, x: int, y: int, flag: bool) -> Seq<ChunkModel> {
    if !flag {
        cs
    } else {
        match tile_at(cs, x, y) {
            None => cs,
            Some(t) => update_tile(cs, x, y, swapped(t)),
        }
    }
}

/// The grid after a rotate intent at (x, y).
pub open spec fn edit_rotate(cs: Seq<ChunkModel>, x: int, y: int, flag: bool) -> Seq<ChunkModel> {
    if !flag {
        cs
    } else {
        match tile_at(cs, x, y) {
            None => cs,
            Some(t) => update_tile(cs, x, y, rotated_tile(t)),
        }
    }
}

/// The grid after one tick's edits, in their fixed order: raise, lower,
/// swap, rotate, all aimed at the freshly moved cursor.
pub open spec fn edited_chunks(s: Scene) -> Seq<ChunkModel> {
    let sel = moved_selected(s);
    let x = sel.0 as int;
    let y = sel.1 as int;
    edit_rotate(
        edit_swap(edit_lower(edit_raise(s.chunks@, x, y, s.raise), x, y, s.lower), x, y, s.swap_model),
        x,
        y,
        s.rotate_tile,
    )
}

/// The batches one tick publishes: the edited grid's geometry, floor pass
/// then wall pass, grouped by the batcher.
pub open spec fn frame_batches(s: Scene) -> Seq<BatchModel<Vertex>> {
    spec_drain(
        state_after(
            scene_calls(edited_chunks(s), moved_selected(s), s.grass_texture, s.ground_wall_texture),
        ),
    )
}

/// A frame's geometry coalesces into at most two batches: every batch
/// samples one of the two pass textures, and when both passes produce
/// geometry the floor-textured batch comes first.
pub proof fn lemma_frame_batches_grouped(s: Scene)
    requires
        s.grass_texture.id != s.ground_wall_texture.id,
    ensures
        frame_batches(s).len() <= 2,
        forall|j: int|
            0 <= j < frame_batches(s).len() ==> (#[trigger] frame_batches(s)[j]).texture
                == s.grass_texture || frame_batches(s)[j].texture == s.ground_wall_texture,
        frame_batches(s).len() == 2 ==> frame_batches(s)[0].texture == s.grass_texture
            && frame_batches(s)[1].texture == s.ground_wall_texture,
{
    let cs = edited_chunks(s);
    let sel = moved_selected(s);
    let grass = s.grass_texture;
    let wall = s.ground_wall_texture;
    let a = pass_calls(cs, sel, true, grass);
    let b = pass_calls(cs, sel, false, wall);
    lemma_pass_calls_texture(cs, sel, true, grass, cs.len() as int, 0);
    lemma_pass_calls_texture(cs, sel, false, wall, cs.len() as int, 0);
    crate::spritebatch::lemma_batching_runs(a + b);
    crate::spritebatch::lemma_runs_uniform(a, grass);
    crate::spritebatch::lemma_runs_uniform(b, wall);
    if a.len() == 0 {
        assert(a + b =~= b);
    } else {
        crate::spritebatch::lemma_runs_two_phases(a, b, grass, wall);
    }
}

/// The scene with one intent flag set or cleared by a key event.
pub open spec fn input_spec(s: Scene, key: Key, pressed: bool) -> Scene {
    match key {
        Key::MoveUp => Scene { move_select_up: pressed, ..s },
        Key::MoveLeft => Scene { move_select_left: pressed, ..s },
        Key::MoveDown => Scene { move_select_down: pressed, ..s },
        Key::MoveRight => Scene { move_select_right: pressed, ..s },
        Key::SaveMap => Scene { save_map_return: pressed, ..s },
        Key::Raise => Scene { raise: pressed, ..s },
        Key::Lower => Scene { lower: pressed, ..s },
        Key::SwapModel => Scene { swap_model: pressed, ..s },
        Key::RotateTile => Scene { rotate_tile: pressed, ..s },
    }
}

/// A found chunk index is a real index that matches the coordinates looked
/// for.
proof fn lemma_first_chunk_found(cs: Seq<ChunkModel>, cx: int, cy: int, j: int)
    requires
        first_chunk_from(cs, cx, cy, j) is Some,
    ensures
        ({
            match first_chunk_from(cs, cx, cy, j) {
                Some(i) => j <= i < cs.len() && cs[i].x == cx && cs[i].y == cy,
                None => false,
            }
        }),
    decreases cs.len() - j,
{
    if !(j < 0 || j >= cs.len()) && !(cs[j].x == cx && cs[j].y == cy) {
        lemma_first_chunk_found(cs, cx, cy, j + 1);
    }
}

/// Replacing the tile at a covered position moves a pass's cost by exactly
/// the difference between the new and the old tile's cost.
proof fn lemma_cost_after_update(
    cs: Seq<ChunkModel>,
    x: int,
    y: int,
    told: Tile,
    tn: Tile,
    floor_pass: bool,
)
    requires
        map_wf(cs),
        tile_at(cs, x, y) == Some(told),
    ensures
        chunks_cost(update_tile(cs, x, y, tn), floor_pass) == chunks_cost(cs, floor_pass)
            - tile_cost(told, floor_pass) + tile_cost(tn, floor_pass),
{
    let fc = first_chunk(cs, chunk_coord(x), chunk_coord(y));
    match fc {
        None => {
            assert(false);
        },
        Some(i) => {
            lemma_first_chunk_found(cs, chunk_coord(x), chunk_coord(y), 0);
            let idx = tile_index(x, y);
            assert(0 <= local_coord(x) < 32);
            assert(0 <= local_coord(y) < 32);
            assert(0 <= idx < 1024);
            let c2 = ChunkModel {
                x: cs[i].x,
                y: cs[i].y,
                tiles: cs[i].tiles.update(idx, tn),
            };
            crate::geometry::lemma_tiles_cost_update(cs[i].tiles, idx, tn, floor_pass);
            crate::geometry::lemma_chunks_cost_update(cs, i, c2, floor_pass);
            assert(told == cs[i].tiles[idx]);
        },
    }
}

/// Apply one tick's tile edits at the cursor, in their fixed order. The
/// grid's per-pass vertex cost can only grow by the one model swap: at most
/// one floor backing and one wall piece.
fn apply_edits(
    map: &mut TileMap,
    sx: i64,
    sy: i64,
    do_raise: bool,
    do_lower: bool,
    do_swap: bool,
    do_rotate: bool,
)
    requires
        old(map).wf(),
        chunks_cost(old(map)@, true) + 4 <= 65535,
        chunks_cost(old(map)@, false) + 11 <= 65535,
    ensures
        final(map).wf(),
        final(map)@ == edit_rotate(
            edit_swap(
                edit_lower(
                    edit_raise(old(map)@, sx as int, sy as int, do_raise),
                    sx as int,
                    sy as int,
                    do_lower,
                ),
                sx as int,
                sy as int,
                do_swap,
            ),
            sx as int,
            sy as int,
            do_rotate,
        ),
        chunks_cost(final(map)@, true) <= 65535,
        chunks_cost(final(map)@, false) <= 65535,
{
    let ghost c0 = map@;

    if do_raise {
        match map.get_tile(sx, sy) {
            Some(t) => {
                let nt = Tile {
                    height: if t.height != 255 {
                        t.height + 1
                    } else {
                        t.height
                    },
                    model: t.model,
                    rotation: t.rotation,
                };
                proof {
                    lemma_cost_after_update(c0, sx as int, sy as int, t, nt, true);
                    lemma_cost_after_update(c0, sx as int, sy as int, t, nt, false);
                }
                map.set_tile(sx, sy, nt);
            },
            None => {},
        }
    }
    let ghost c1 = map@;
    proof {
        assert(c1 == edit_raise(c0, sx as int, sy as int, do_raise));
        assert(chunks_cost(c1, true) == chunks_cost(c0, true));
        assert(chunks_cost(c1, false) == chunks_cost(c0, false));
    }

    if do_lower {
        match map.get_tile(sx, sy) {
            Some(t) => {
                let nt = Tile {
                    height: if t.height > 0 {
                        t.height - 1
                    } else {
                        t.height
                    },
                    model: t.model,
                    rotation: t.rotation,
                };
                proof {
                    lemma_cost_after_update(c1, sx as int, sy as int, t, nt, true);
                    lemma_cost_after_update(c1, sx as int, sy as int, t, nt, false);
                }
                map.set_tile(sx, sy, nt);
            },
            None => {},
        }
    }
    let ghost c2 = map@;
    proof {
        assert(c2 == edit_lower(c1, sx as int, sy as int, do_lower));
        assert(chunks_cost(c2, true) == chunks_cost(c0, true));
        assert(chunks_cost(c2, false) == chunks_cost(c0, false));
    }

    if do_swap {
        match map.get_tile(sx, sy) {
            Some(t) => {
                let mut model = t.model;
                model.swap_model();
                let nt = Tile { height: t.height, model, rotation: t.rotation };
                proof {
                    lemma_cost_after_update(c2, sx as int, sy as int, t, nt, true);
                    lemma_cost_after_update(c2, sx as int, sy as int, t, nt, false);
                    lemma_tile_cost_bound(t, true);
                    lemma_tile_cost_bound(t, false);
                    lemma_tile_cost_bound(nt, true);
                    lemma_tile_cost_bound(nt, false);
                }
                map.set_tile(sx, sy, nt);
            },
            None => {},
        }
    }
    let ghost c3 = map@;
    proof {
        assert(c3 == edit_swap(c2, sx as int, sy as int, do_swap));
        assert(chunks_cost(c3, true) <= chunks_cost(c0, true) + 4);
        assert(chunks_cost(c3, false) <= chunks_cost(c0, false) + 11);
    }

    if do_rotate {
        match map.get_tile(sx, sy) {
            Some(t) => {
                let mut rotation = t.rotation;
                rotation.rotate_next();
                let nt = Tile { height: t.height, model: t.model, rotation };
                proof {
                    lemma_cost_after_update(c3, sx as int, sy as int, t, nt, true);
                    lemma_cost_after_update(c3, sx as int, sy as int, t, nt, false);
                }
                map.set_tile(sx, sy, nt);
            },
            None => {},
        }
    }
    proof {
        assert(map@ == edit_rotate(c3, sx as int, sy as int, do_rotate));
        assert(chunks_cost(map@, true) <= chunks_cost(c0, true) + 4);
        assert(chunks_cost(map@, false) <= chunks_cost(c0, false) + 11);
    }
}

impl Scene {
    /// A scene is well formed when its grid is, its batcher is empty and
    /// idle between ticks, and its two pass textures are distinct.
    pub open spec fn wf(&self) -> bool {
        &&& map_wf(self.chunks@)
        &&& self.spritebatch.wf()
        &&& self.spritebatch@ == empty_model::<Vertex>()
        &&& self.grass_texture.id != self.ground_wall_texture.id
    }

    /// Whether this tick's geometry is certain to fit the batcher's 16-bit
    /// index space, whatever single edit the tick applies.
    pub open spec fn budget_ok(&self) -> bool {
        &&& chunks_cost(self.chunks@, true) + 4 <= 65535
        &&& chunks_cost(self.chunks@, false) + 11 <= 65535
    }

    /// A fresh scene over a loaded grid, cursor at the origin, no intents.
    pub fn new(
        grass_texture: TextureHandle,
        ground_wall_texture: TextureHandle,
        chunks: TileMap,
    ) -> (s: Scene)
        requires
            grass_texture.id != ground_wall_texture.id,
            map_wf(chunks@),
        ensures
            s.wf(),
            s.chunks@ == chunks@,
            s.selected == (0i64, 0i64),
            s.grass_texture == grass_texture,
            s.ground_wall_texture == ground_wall_texture,
            !s.move_select_up && !s.move_select_down && !s.move_select_left
                && !s.move_select_right,
            !s.save_map_return && !s.raise && !s.lower && !s.swap_model && !s.rotate_tile,
    {
        Scene {
            spritebatch: Spritebatch::new(),
            grass_texture,
            ground_wall_texture,
            move_select_left: false,
            move_select_right: false,
            move_select_up: false,
            move_select_down: false,
            save_map_return: false,
            raise: false,
            lower: false,
            swap_model: false,
            rotate_tile: false,
            selected: (0, 0),
            chunks,
        }
    }

    /// Serialize the grid to its persisted byte form.
    pub fn serialize(&self) -> (r: Vec<u8>)
        requires
            self.wf(),
        ensures
            r@ == map_bytes(self.chunks@),
    {
        self.chunks.to_bytes()
    }

    /// Replace the grid with one decoded from persisted bytes; on a decode
    /// error the scene is unchanged.
    pub fn deserialize(&mut self, data: &[u8]) -> (r: Result<(), MapDecodeError>)
        requires
            old(self).wf(),
        ensures
            final(self).wf(),
            match r {
                Ok(_) => match parse_map(data@) {
                    Ok(cs) => final(self).chunks@ == cs,
                    Err(_) => false,
                },
                Err(e) => parse_map(data@) == Err::<Seq<ChunkModel>, MapDecodeError>(e) && final(self).chunks@ == old(self).chunks@,
            },
            final(self).selected == old(self).selected,
            final(self).grass_texture == old(self).grass_texture,
            final(self).ground_wall_texture == old(self).ground_wall_texture,
            final(self).spritebatch == old(self).spritebatch,
            final(self).move_select_up == old(self).move_select_up,
            final(self).move_select_down == old(self).move_select_down,
            final(self).move_select_left == old(self).move_select_left,
            final(self).move_select_right == old(self).move_select_right,
            final(self).save_map_return == old(self).save_map_return,
            final(self).raise == old(self).raise,
            final(self).lower == old(self).lower,
            final(self).swap_model == old(self).swap_model,
            final(self).rotate_tile == old(self).rotate_tile,
    {
        match TileMap::from_bytes(data) {
            Ok(m) => {
                self.chunks = m;
                Ok(())
            },
            Err(e) => Err(e),
        }
    }

    /// Record one key event: each key sets or clears exactly one intent
    /// flag; the rest of the scene is untouched.
    pub fn input(&mut self, key: Key, pressed: bool)
        ensures
            *final(self) == input_spec(*old(self), key, pressed),
            old(self).wf() ==> final(self).wf(),
    {
        match key {
            Key::MoveUp => {
                self.move_select_up = pressed;
            },
            Key::MoveLeft => {
                self.move_select_left = pressed;
            },
            Key::MoveDown => {
                self.move_select_down = pressed;
            },
            Key::MoveRight => {
                self.move_select_right = pressed;
            },
            Key::SaveMap => {
                self.save_map_return = pressed;
            },
            Key::Raise => {
                self.raise = pressed;
            },
            Key::Lower => {
                self.lower = pressed;
            },
            Key::SwapModel => {
                self.swap_model = pressed;
            },
            Key::RotateTile => {
                self.rotate_tile = pressed;
            },
        }
    }

    /// Resolve a world tile coordinate to (chunk x, chunk y, local x,
    /// local y), with floor division and non-negative locals.
    pub fn xy_to_chunk_coord(x: i64, y: i64) -> (r: (i64, i64, usize, usize))
        ensures
            r.0 == chunk_coord(x as int),
            r.1 == chunk_coord(y as int),
            r.2 == local_coord(x as int),
            r.3 == local_coord(y as int),
            r.0 * 32 + r.2 == x as int,
            r.1 * 32 + r.3 == y as int,
            0 <= r.2 < 32,
            0 <= r.3 < 32,
    {
        coordinate_to_chunk(x, y)
    }

    /// Read the tile at a world position; `None` outside every chunk.
    pub fn get_tile(&self, x: i64, y: i64) -> (r: Option<Tile>)
        requires
            self.wf(),
        ensures
            r == tile_at(self.chunks@, x as int, y as int),
    {
        self.chunks.get_tile(x, y)
    }

    /// One editor tick: move the cursor, serialize on a save intent, apply
    /// the tile edits in order, clear every intent, regenerate the whole
    /// grid's geometry in the two-pass texture-grouped order, and hand the
    /// drained batches (and any save bytes) out.
    #[verifier::rlimit(100)]
    #[verifier::spinoff_prover]
    pub fn tick(&mut self) -> (out: FrameOutput)
        requires
            old(self).wf(),
            old(self).budget_ok(),
        ensures
            final(self).wf(),
            final(self).selected == moved_selected(*old(self)),
            final(self).chunks@ == edited_chunks(*old(self)),
            final(self).grass_texture == old(self).grass_texture,
            final(self).ground_wall_texture == old(self).ground_wall_texture,
            !final(self).move_select_up && !final(self).move_select_down && !final(self).move_select_left && !final(self).move_select_right,
            !final(self).save_map_return && !final(self).raise && !final(self).lower && !final(self).swap_model && !final(self).rotate_tile,
            match out.saved {
                Some(bytes) => old(self).save_map_return && bytes@ == map_bytes(
                    old(self).chunks@,
                ),
                None => !old(self).save_map_return,
            },
            out.batches@.map_values(|b: Batch<Vertex>| b@) == frame_batches(*old(self)),
    {
        let ghost s0 = *old(self);

        if self.move_select_up {
            if self.selected.1 > i64::MIN {
                self.selected.1 = self.selected.1 - 1;
            }
        }
        if self.move_select_down {
            if self.selected.1 < i64::MAX {
                self.selected.1 = self.selected.1 + 1;
            }
        }
        if self.move_select_left {
            if self.selected.0 > i64::MIN {
                self.selected.0 = self.selected.0 - 1;
            }
        }
        if self.move_select_right {
            if self.selected.0 < i64::MAX {
                self.selected.0 = self.selected.0 + 1;
            }
        }
        self.move_select_up = false;
        self.move_select_down = false;
        self.move_select_left = false;
        self.move_select_right = false;
        proof {
            assert(self.selected == moved_selected(s0));
        }

        let saved: Option<Vec<u8>> = if self.save_map_return {
            Some(self.chunks.to_bytes())
        } else {
            None
        };
        self.save_map_return = false;

        let sx = self.selected.0;
        let sy = self.selected.1;

        let do_raise = self.raise;
        let do_lower = self.lower;
        let do_swap = self.swap_model;
        let do_rotate = self.rotate_tile;
        apply_edits(&mut self.chunks, sx, sy, do_raise, do_lower, do_swap, do_rotate);
        self.raise = false;
        self.lower = false;
        self.swap_model = false;
        self.rotate_tile = false;
        let ghost c4 = self.chunks@;
        proof {
            assert(c4 == edited_chunks(s0));
        }

        let grass = self.grass_texture;
        let wall = self.ground_wall_texture;
        push_pass(&mut self.spritebatch, &self.chunks, sx, sy, true, grass);
        push_pass(&mut self.spritebatch, &self.chunks, sx, sy, false, wall);
        let batches = self.spritebatch.get_buffer();
        proof {
            lemma_fold_append(
                empty_model::<Vertex>(),
                pass_calls(c4, (sx, sy), true, grass),
                pass_calls(c4, (sx, sy), false, wall),
            );
            assert(batches@.map_values(|b: Batch<Vertex>| b@) == frame_batches(s0));
        }

        FrameOutput { batches, saved }
    }
}

} // verus!
