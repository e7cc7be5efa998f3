//! The chunked tile grid: fixed 32 x 32 chunks of tiles, addressed sparsely
//! by signed chunk coordinates, with floor-division world-to-chunk
//! resolution so negative world coordinates address valid cells.

use vstd::prelude::*;

use vstd::arithmetic::div_mod::lemma_fundamental_div_mod_converse;

use crate::tile::{Model, Tile, TileRotation};

verus! {

/// Chunks are square, `CHUNK_DIM` tiles on a side.
pub const CHUNK_DIM: usize = 32;

/// Tiles per chunk.
pub const TILES_PER_CHUNK: usize = 32 * 32;

/// Largest magnitude of a chunk coordinate the grid accepts; keeps every
/// world coordinate, scaled to fixed-point subunits, well inside `i64`.
pub const CHUNK_COORD_BOUND: i64 = 0x8000_0000;

/// A fixed 32 x 32 block of tiles at integer chunk coordinates; the tile at
/// local (x, y) sits at flat index `y * 32 + x`.
#[derive(Clone, Debug)]
pub struct Chunk {
    pub x: i64,
    pub y: i64,
    pub tiles: Vec<Tile>,
}

/// The mathematical shadow of a `Chunk`.
pub struct ChunkModel {
    pub x: i64,
    pub y: i64,
    pub tiles: Seq<Tile>,
}

impl View for Chunk {
    type V = ChunkModel;

    open spec fn view(&self) -> ChunkModel {
        ChunkModel { x: self.x, y: self.y, tiles: self.tiles@ }
    }
}

/// A sparse, ordered collection of chunks: the whole grid.
pub struct TileMap(pub Vec<Chunk>);

impl View for TileMap {
    type V = Seq<ChunkModel>;

    open spec fn view(&self) -> Seq<ChunkModel> {
        self.0@.map_values(|c: Chunk| c@)
    }
}

/// A chunk is well formed when it holds exactly one tile per cell and its
/// coordinates are within the addressable bound.
pub open spec fn chunk_wf(c: ChunkModel) -> bool {
    &&& c.tiles.len() == 1024
    &&& -CHUNK_COORD_BOUND <= c.x <= CHUNK_COORD_BOUND
    &&& -CHUNK_COORD_BOUND <= c.y <= CHUNK_COORD_BOUND
}

/// A grid is well formed when all its chunks are.
pub open spec fn map_wf(cs: Seq<ChunkModel>) -> bool {
    forall|i: int| 0 <= i < cs.len() ==> chunk_wf(#[trigger] cs[i])
}

/// The chunk coordinate a world coordinate falls in: floor division by 32.
pub open spec fn chunk_coord(w: int) -> int {
    w / 32
}

/// The in-chunk coordinate of a world coordinate: the floor remainder,
/// always in [0, 32).
pub open spec fn local_coord(w: int) -> int {
    w % 32
}

/// The flat index of world position (x, y) inside its chunk.
pub open spec fn tile_index(x: int, y: int) -> int {
    local_coord(y) * 32 + local_coord(x)
}

/// The position, if any, of the first chunk at (cx, cy), searching from `i`.
pub open spec fn first_chunk_from(cs: Seq<ChunkModel>, cx: int, cy: int, i: int) -> Option<int>
    decreases cs.len() - i,
{
    if i < 0 || i >= cs.len() {
        None
    } else if cs[i].x == cx && cs[i].y == cy {
        Some(i)
    } else {
        first_chunk_from(cs, cx, cy, i + 1)
    }
}

/// The position, if any, of the first chunk at (cx, cy).
pub open spec fn first_chunk(cs: Seq<ChunkModel>, cx: int, cy: int) -> Option<int> {
    first_chunk_from(cs, cx, cy, 0)
}

/// The tile stored at world position (x, y), if its chunk exists.
pub open spec fn tile_at(cs: Seq<ChunkModel>, x: int, y: int) -> Option<Tile> {
    match first_chunk(cs, chunk_coord(x), chunk_coord(y)) {
        None => None,
        Some(i) => Some(cs[i].tiles[tile_index(x, y)]),
    }
}

/// The grid with the tile at world position (x, y) replaced by `t`; the grid
/// unchanged when no chunk covers that position.
pub open spec fn update_tile(cs: Seq<ChunkModel>, x: int, y: int, t: Tile) -> Seq<ChunkModel> {
    match first_chunk(cs, chunk_coord(x), chunk_coord(y)) {
        None => cs,
        Some(i) => cs.update(
            i,
            ChunkModel { x: cs[i].x, y: cs[i].y, tiles: cs[i].tiles.update(tile_index(x, y), t) },
        ),
    }
}

/// Split one world axis coordinate into its chunk coordinate and its
/// non-negative in-chunk coordinate.
pub fn split_axis(w: i64) -> (r: (i64, usize))
    ensures
        r.0 == chunk_coord(w as int),
        r.1 == local_coord(w as int),
        r.0 * 32 + r.1 == w as int,
        0 <= r.1 < 32,
{
    if w >= 0 {
        let q = w / 32;
        let l = (w % 32) as usize;
        proof {
            lemma_fundamental_div_mod_converse(w as int, 32, q as int, l as int);
        }
        (q, l)
    } else {
        let m = (-(w + 1)) as u64;
        let a = m / 32;
        let b = m % 32;
        let q = -(a as i64) - 1;
        let l = (31 - b) as usize;
        proof {
            assert(m == -(w as int) - 1);
            assert(m == 32 * (m / 32) + m % 32);
            assert(w as int == q as int * 32 + l as int);
            lemma_fundamental_div_mod_converse(w as int, 32, q as int, l as int);
        }
        (q, l)
    }
}

/// Resolve a world tile coordinate to (chunk x, chunk y, local x, local y).
/// Reconstructing the world coordinate as `chunk * 32 + local` is exact, and
/// each local coordinate is in [0, 32) even for negative input.
pub fn coordinate_to_chunk(x: i64, y: i64) -> (r: (i64, i64, usize, usize))
    ensures
        r.0 == chunk_coord(x as int),
        r.1 == chunk_coord(y as int),
        r.2 == local_coord(x as int),
        r.3 == local_coord(y as int),
        r.0 * 32 + r.2 == x as int,
        r.1 * 32 + r.3 == y as int,
        0 <= r.2 < 32,
        0 <= r.3 < 32,
{
    let (cx, lx) = split_axis(x);
    let (cy, ly) = split_axis(y);
    (cx, cy, lx, ly)
}

impl Chunk {
    /// A fresh chunk at (x, y): every tile a floor of height zero, unrotated.
    pub fn new(x: i64, y: i64) -> (c: Chunk)
        ensures
            c@.x == x,
            c@.y == y,
            c@.tiles.len() == 1024,
            forall|i: int|
                0 <= i < 1024 ==> c@.tiles[i] == (Tile {
                    height: 0u8,
                    model: Model::Floor,
                    rotation: TileRotation::Zero,
                }),
    {
        let mut tiles: Vec<Tile> = Vec::new();
        let mut i: usize = 0;
        while i < TILES_PER_CHUNK
            invariant
                i == tiles@.len(),
                i <= 1024,
                forall|j: int|
                    0 <= j < i ==> tiles@[j] == (Tile {
                        height: 0u8,
                        model: Model::Floor,
                        rotation: TileRotation::Zero,
                    }),
            decreases 1024 - i,
        {
            tiles.push(Tile { height: 0, model: Model::Floor, rotation: TileRotation::Zero });
            i += 1;
        }
        Chunk { x, y, tiles }
    }
}

impl TileMap {
    /// The grid's well-formedness: every chunk full-size and in bounds.
    pub open spec fn wf(&self) -> bool {
        map_wf(self@)
    }

    /// An empty grid.
    pub fn new() -> (m: TileMap)
        ensures
            m@.len() == 0,
            m.wf(),
    {
        TileMap(Vec::new())
    }

    /// Read the tile at world position (x, y); `None` when no chunk covers
    /// that position.
    pub fn get_tile(&self, x: i64, y: i64) -> (r: Option<Tile>)
        requires
            self.wf(),
        ensures
            r == tile_at(self@, x as int, y as int),
    {
        let (cx, cy, lx, ly) = coordinate_to_chunk(x, y);
        let idx = ly * CHUNK_DIM + lx;
        let ghost cs = self@;
        let mut i: usize = 0;
        while i < self.0.len()
            invariant
                self.wf(),
                cs == self@,
                idx == tile_index(x as int, y as int),
                idx < 1024,
                cx == chunk_coord(x as int),
                cy == chunk_coord(y as int),
                0 <= i <= cs.len(),
                first_chunk(cs, cx as int, cy as int) == first_chunk_from(
                    cs,
                    cx as int,
                    cy as int,
                    i as int,
                ),
            decreases self.0@.len() - i,
        {
            let c = &self.0[i];
            if c.x == cx && c.y == cy {
                return Some(c.tiles[idx]);
            }
            i += 1;
        }
        None
    }

    /// Replace the tile at world position (x, y); returns whether a chunk
    /// covered the position (otherwise the grid is unchanged).
    pub fn set_tile(&mut self, x: i64, y: i64, t: Tile) -> (found: bool)
        requires
            old(self).wf(),
        ensures
            final(self)@ == update_tile(old(self)@, x as int, y as int, t),
            final(self).wf(),
            found == first_chunk(
                old(self)@,
                chunk_coord(x as int),
                chunk_coord(y as int),
            ) is Some,
    {
        let (cx, cy, lx, ly) = coordinate_to_chunk(x, y);
        let idx = ly * CHUNK_DIM + lx;
        let ghost cs = self@;
        let mut i: usize = 0;
        while i < self.0.len()
            invariant
                self.wf(),
                cs == self@,
                cs == old(self)@,
                idx == tile_index(x as int, y as int),
                idx < 1024,
                cx == chunk_coord(x as int),
                cy == chunk_coord(y as int),
                0 <= i <= cs.len(),
                first_chunk(cs, cx as int, cy as int) == first_chunk_from(
                    cs,
                    cx as int,
                    cy as int,
                    i as int,
                ),
            decreases self.0@.len() - i,
        {
            let hit = { let c = &self.0[i]; c.x == cx && c.y == cy };
            if hit {
                proof {
                    assert(cs[i as int] == self.0@[i as int]@);
                    assert(first_chunk_from(cs, cx as int, cy as int, i as int) == Some(i as int));
                }
                let c = &mut self.0[i];
                c.tiles[idx] = t;
                proof {
                    assert(self@[i as int].tiles == cs[i as int].tiles.update(idx as int, t));
                    assert(forall|j: int|
                        0 <= j < cs.len() && j != i ==> self@[j] == cs[j]);
                    assert(self@ =~= update_tile(cs, x as int, y as int, t));
                }
                return true;
            }
            i += 1;
        }
        proof {
            assert(self@ =~= update_tile(cs, x as int, y as int, t));
        }
        false
    }
}

} // verus!
