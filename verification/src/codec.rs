//! The persisted map format, all little-endian: a 64-bit chunk count, then
//! one record per chunk: 64-bit signed x, 64-bit signed y, and 32 x 32 tile
//! records of three bytes each (height, model tag, rotation tag) in
//! row-major local order.

use vstd::prelude::*;

use vstd::bytes::{
    lemma_auto_spec_u64_to_from_le_bytes, spec_u64_from_le_bytes, spec_u64_to_le_bytes,
    u64_from_le_bytes, u64_to_le_bytes,
};
use vstd::slice::slice_subrange;

use crate::map::{chunk_wf, map_wf, Chunk, ChunkModel, TileMap};
use crate::tile::{Model, Tile, TileRotation};

verus! {

/// Why a byte blob failed to decode as a map.
#[derive(Clone, Copy, Debug, PartialEq, Eq, Structural)]
pub enum MapDecodeError {
    /// The data ended before the record it announced.
    Truncated,
    /// A tile's model byte named no model.
    BadModelTag,
    /// A tile's rotation byte named no rotation.
    BadRotationTag,
    /// A chunk's coordinates were outside the addressable grid.
    ChunkCoordOutOfRange,
}

/// The byte tag of a model.
pub open spec fn model_tag(m: Model) -> u8 {
    match m {
        Model::Wall => 0u8,
        Model::Corner => 1u8,
        Model::InnerCorner => 2u8,
        Model::Floor => 3u8,
    }
}

/// The model a byte tag names, if any.
pub open spec fn parse_model(tag: u8) -> Option<Model> {
    if tag == 0 {
        Some(Model::Wall)
    } else if tag == 1 {
        Some(Model::Corner)
    } else if tag == 2 {
        Some(Model::InnerCorner)
    } else if tag == 3 {
        Some(Model::Floor)
    } else {
        None
    }
}

/// The byte tag of a rotation.
pub open spec fn rotation_tag(r: TileRotation) -> u8 {
    match r {
        TileRotation::Zero => 0u8,
        TileRotation::Quarter => 1u8,
        TileRotation::Half => 2u8,
        TileRotation::ThreeQuarters => 3u8,
    }
}

/// The rotation a byte tag names, if any.
pub open spec fn parse_rotation(tag: u8) -> Option<TileRotation> {
    if tag == 0 {
        Some(TileRotation::Zero)
    } else if tag == 1 {
        Some(TileRotation::Quarter)
    } else if tag == 2 {
        Some(TileRotation::Half)
    } else if tag == 3 {
        Some(TileRotation::ThreeQuarters)
    } else {
        None
    }
}

/// The three bytes of one tile record.
pub open spec fn tile_bytes(t: Tile) -> Seq<u8> {
    seq![t.height, model_tag(t.model), rotation_tag(t.rotation)]
}

/// The concatenated records of a run of tiles.
pub open spec fn tiles_bytes(ts: Seq<Tile>) -> Seq<u8>
    decreases ts.len(),
{
    if ts.len() == 0 {
        Seq::empty()
    } else {
        tiles_bytes(ts.drop_last()) + tile_bytes(ts.last())
    }
}

/// One chunk record: x, y, then the tile run.
pub open spec fn chunk_bytes(c: ChunkModel) -> Seq<u8> {
    spec_u64_to_le_bytes(c.x as u64) + spec_u64_to_le_bytes(c.y as u64) + tiles_bytes(c.tiles)
}

/// The concatenated records of a run of chunks.
pub open spec fn chunks_bytes(cs: Seq<ChunkModel>) -> Seq<u8>
    decreases cs.len(),
{
    if cs.len() == 0 {
        Seq::empty()
    } else {
        chunks_bytes(cs.drop_last()) + chunk_bytes(cs.last())
    }
}

/// The whole persisted map: chunk count, then the chunk records.
pub open spec fn map_bytes(cs: Seq<ChunkModel>) -> Seq<u8> {
    spec_u64_to_le_bytes(cs.len() as u64) + chunks_bytes(cs)
}

/// The tile read from a three-byte record at `off`.
pub open spec fn parse_tile(b: Seq<u8>, off: int) -> Result<Tile, MapDecodeError> {
    if off + 3 > b.len() {
        Err(MapDecodeError::Truncated)
    } else {
        match parse_model(b[off + 1]) {
            None => Err(MapDecodeError::BadModelTag),
            Some(m) => match parse_rotation(b[off + 2]) {
                None => Err(MapDecodeError::BadRotationTag),
                Some(r) => Ok(Tile { height: b[off], model: m, rotation: r }),
            },
        }
    }
}

/// The first `k` tiles read from consecutive records starting at `off`; the
/// error of the earliest bad record wins.
pub open spec fn parse_tiles(b: Seq<u8>, off: int, k: nat) -> Result<Seq<Tile>, MapDecodeError>
    decreases k,
{
    if k == 0 {
        Ok(Seq::empty())
    } else {
        match parse_tiles(b, off, (k - 1) as nat) {
            Err(e) => Err(e),
            Ok(ts) => match parse_tile(b, off + 3 * (k - 1)) {
                Err(e) => Err(e),
                Ok(t) => Ok(ts.push(t)),
            },
        }
    }
}

/// The chunk read from the record at `off`.
pub open spec fn parse_chunk(b: Seq<u8>, off: int) -> Result<ChunkModel, MapDecodeError> {
    if off + 16 > b.len() {
        Err(MapDecodeError::Truncated)
    } else {
        let x = spec_u64_from_le_bytes(b.subrange(off, off + 8)) as i64;
        let y = spec_u64_from_le_bytes(b.subrange(off + 8, off + 16)) as i64;
        if x < -0x8000_0000 || x > 0x8000_0000 || y < -0x8000_0000 || y > 0x8000_0000 {
            Err(MapDecodeError::ChunkCoordOutOfRange)
        } else {
            match parse_tiles(b, off + 16, 1024) {
                Err(e) => Err(e),
                Ok(ts) => Ok(ChunkModel { x, y, tiles: ts }),
            }
        }
    }
}

/// The first `k` chunks read from consecutive records starting at `off`.
pub open spec fn parse_chunks(b: Seq<u8>, off: int, k: nat) -> Result<
    Seq<ChunkModel>,
    MapDecodeError,
>
    decreases k,
{
    if k == 0 {
        Ok(Seq::empty())
    } else {
        match parse_chunks(b, off, (k - 1) as nat) {
            Err(e) => Err(e),
            Ok(cs) => match parse_chunk(b, off + 3088 * (k - 1)) {
                Err(e) => Err(e),
                Ok(c) => Ok(cs.push(c)),
            },
        }
    }
}

/// The map read from a whole blob: the count, then that many chunks.
pub open spec fn parse_map(b: Seq<u8>) -> Result<Seq<ChunkModel>, MapDecodeError> {
    if b.len() < 8 {
        Err(MapDecodeError::Truncated)
    } else {
        parse_chunks(b, 8, spec_u64_from_le_bytes(b.subrange(0, 8)) as nat)
    }
}

/// Casting a signed 64-bit value through its unsigned bit pattern and back
/// is the identity.
proof fn lemma_i64_u64_roundtrip(x: i64)
    ensures
        (x as u64) as i64 == x,
{
    assert((x as u64) as i64 == x) by (bit_vector);
}

/// A tile run's record is three bytes per tile.
pub proof fn lemma_tiles_bytes_len(ts: Seq<Tile>)
    ensures
        tiles_bytes(ts).len() == 3 * ts.len(),
    decreases ts.len(),
{
    if ts.len() > 0 {
        lemma_tiles_bytes_len(ts.drop_last());
    }
}

/// A well-formed chunk's record is exactly 3088 bytes: two eight-byte
/// coordinates and 1024 three-byte tiles.
pub proof fn lemma_chunk_bytes_len(c: ChunkModel)
    requires
        c.tiles.len() == 1024,
    ensures
        chunk_bytes(c).len() == 3088,
{
    lemma_auto_spec_u64_to_from_le_bytes();
    lemma_tiles_bytes_len(c.tiles);
}

/// A well-formed chunk run's record is 3088 bytes per chunk.
pub proof fn lemma_chunks_bytes_len(cs: Seq<ChunkModel>)
    requires
        map_wf(cs),
    ensures
        chunks_bytes(cs).len() == 3088 * cs.len(),
    decreases cs.len(),
{
    if cs.len() > 0 {
        assert(map_wf(cs.drop_last())) by {
            assert(forall|i: int|
                0 <= i < cs.len() - 1 ==> cs.drop_last()[i] == cs[i]);
        }
        lemma_chunks_bytes_len(cs.drop_last());
        lemma_chunk_bytes_len(cs.last());
    }
}

/// A bad tile prefix decides the whole run: once the first `k` records fail,
/// any longer run fails the same way.
proof fn lemma_parse_tiles_err(b: Seq<u8>, off: int, k: nat, k2: nat)
    requires
        parse_tiles(b, off, k) is Err,
        k <= k2,
    ensures
        parse_tiles(b, off, k2) == parse_tiles(b, off, k),
    decreases k2 - k,
{
    if k2 > k {
        lemma_parse_tiles_err(b, off, k, (k2 - 1) as nat);
    }
}

/// Likewise for chunk records.
proof fn lemma_parse_chunks_err(b: Seq<u8>, off: int, k: nat, k2: nat)
    requires
        parse_chunks(b, off, k) is Err,
        k <= k2,
    ensures
        parse_chunks(b, off, k2) == parse_chunks(b, off, k),
    decreases k2 - k,
{
    if k2 > k {
        lemma_parse_chunks_err(b, off, k, (k2 - 1) as nat);
    }
}

/// Reading back a tile run that sits verbatim inside a larger buffer yields
/// the run.
proof fn lemma_parse_tiles_roundtrip(b: Seq<u8>, off: int, ts: Seq<Tile>)
    requires
        0 <= off,
        off + 3 * ts.len() <= b.len(),
        b.subrange(off, off + 3 * ts.len()) == tiles_bytes(ts),
    ensures
        parse_tiles(b, off, ts.len()) == Ok::<Seq<Tile>, MapDecodeError>(ts),
    decreases ts.len(),
{
    lemma_tiles_bytes_len(ts);
    if ts.len() > 0 {
        let pre = ts.drop_last();
        let t = ts.last();
        lemma_tiles_bytes_len(pre);
        assert(b.subrange(off, off + 3 * pre.len()) =~= tiles_bytes(pre)) by {
            assert(forall|i: int|
                0 <= i < 3 * pre.len() ==> b.subrange(off, off + 3 * ts.len())[i] == #[trigger] b.subrange(
                    off,
                    off + 3 * pre.len(),
                )[i]);
        }
        lemma_parse_tiles_roundtrip(b, off, pre);
        let toff = off + 3 * (ts.len() - 1);
        assert(b[toff] == tile_bytes(t)[0] && b[toff + 1] == tile_bytes(t)[1] && b[toff + 2]
            == tile_bytes(t)[2]) by {
            let j = 3 * pre.len() as int;
            assert(tiles_bytes(ts)[j] == tile_bytes(t)[0]);
            assert(tiles_bytes(ts)[j + 1] == tile_bytes(t)[1]);
            assert(tiles_bytes(ts)[j + 2] == tile_bytes(t)[2]);
            assert(b.subrange(off, off + 3 * ts.len())[j] == b[off + j]);
            assert(b.subrange(off, off + 3 * ts.len())[j + 1] == b[off + j + 1]);
            assert(b.subrange(off, off + 3 * ts.len())[j + 2] == b[off + j + 2]);
        }
        assert(parse_tile(b, toff) == Ok::<Tile, MapDecodeError>(t));
        assert(ts == pre.push(t));
    } else {
        assert(parse_tiles(b, off, 0) == Ok::<Seq<Tile>, MapDecodeError>(Seq::empty()));
        assert(ts =~= Seq::<Tile>::empty());
    }
}

/// Reading back a chunk record that sits verbatim inside a larger buffer
/// yields the chunk.
proof fn lemma_parse_chunk_roundtrip(b: Seq<u8>, off: int, c: ChunkModel)
    requires
        0 <= off,
        chunk_wf(c),
        off + 3088 <= b.len(),
        b.subrange(off, off + 3088) == chunk_bytes(c),
    ensures
        parse_chunk(b, off) == Ok::<ChunkModel, MapDecodeError>(c),
{
    lemma_auto_spec_u64_to_from_le_bytes();
    lemma_tiles_bytes_len(c.tiles);
    let xb = spec_u64_to_le_bytes(c.x as u64);
    let yb = spec_u64_to_le_bytes(c.y as u64);
    assert(b.subrange(off, off + 8) =~= xb) by {
        assert(b.subrange(off, off + 8) =~= b.subrange(off, off + 3088).subrange(0, 8));
        assert(chunk_bytes(c).subrange(0, 8) =~= xb);
    }
    assert(b.subrange(off + 8, off + 16) =~= yb) by {
        assert(b.subrange(off + 8, off + 16) =~= b.subrange(off, off + 3088).subrange(8, 16));
        assert(chunk_bytes(c).subrange(8, 16) =~= yb);
    }
    assert(spec_u64_from_le_bytes(b.subrange(off, off + 8)) == c.x as u64);
    lemma_i64_u64_roundtrip(c.x);
    lemma_i64_u64_roundtrip(c.y);
    assert(b.subrange(off + 16, off + 16 + 3 * c.tiles.len()) =~= tiles_bytes(c.tiles)) by {
        assert(b.subrange(off + 16, off + 3088) =~= b.subrange(off, off + 3088).subrange(
            16,
            3088,
        ));
        assert(chunk_bytes(c).subrange(16, 3088) =~= tiles_bytes(c.tiles));
    }
    lemma_parse_tiles_roundtrip(b, off + 16, c.tiles);
}

/// Reading back a chunk run that sits verbatim inside a larger buffer yields
/// the run.
proof fn lemma_parse_chunks_roundtrip(b: Seq<u8>, off: int, cs: Seq<ChunkModel>)
    requires
        0 <= off,
        map_wf(cs),
        off + 3088 * cs.len() <= b.len(),
        b.subrange(off, off + 3088 * cs.len()) == chunks_bytes(cs),
    ensures
        parse_chunks(b, off, cs.len()) == Ok::<Seq<ChunkModel>, MapDecodeError>(cs),
    decreases cs.len(),
{
    lemma_chunks_bytes_len(cs);
    if cs.len() > 0 {
        let pre = cs.drop_last();
        let c = cs.last();
        assert(map_wf(pre)) by {
            assert(forall|i: int| 0 <= i < pre.len() ==> pre[i] == cs[i]);
        }
        lemma_chunks_bytes_len(pre);
        assert(b.subrange(off, off + 3088 * pre.len() as int) =~= chunks_bytes(pre)) by {
            assert(b.subrange(off, off + 3088 * pre.len() as int) =~= b.subrange(
                off,
                off + 3088 * cs.len(),
            ).subrange(0, 3088 * pre.len() as int));
            assert(chunks_bytes(cs).subrange(0, 3088 * pre.len() as int) =~= chunks_bytes(pre));
        }
        lemma_parse_chunks_roundtrip(b, off, pre);
        let coff = off + 3088 * (cs.len() - 1);
        assert(b.subrange(coff, coff + 3088) =~= chunk_bytes(c)) by {
            assert(b.subrange(coff, coff + 3088) =~= b.subrange(
                off,
                off + 3088 * cs.len(),
            ).subrange(3088 * pre.len() as int, 3088 * cs.len() as int));
            assert(chunks_bytes(cs).subrange(3088 * pre.len() as int, 3088 * cs.len() as int)
                =~= chunk_bytes(c));
        }
        lemma_parse_chunk_roundtrip(b, coff, c);
        assert(cs == pre.push(c));
    } else {
        assert(cs =~= Seq::<ChunkModel>::empty());
    }
}

/// Serializing a well-formed map and reading it back yields the same chunk
/// coordinates and tile contents, chunk for chunk.
pub proof fn lemma_map_roundtrip(cs: Seq<ChunkModel>)
    requires
        map_wf(cs),
        cs.len() <= u64::MAX,
    ensures
        parse_map(map_bytes(cs)) == Ok::<Seq<ChunkModel>, MapDecodeError>(cs),
{
    lemma_auto_spec_u64_to_from_le_bytes();
    lemma_chunks_bytes_len(cs);
    let b = map_bytes(cs);
    assert(b.subrange(0, 8) =~= spec_u64_to_le_bytes(cs.len() as u64));
    assert(spec_u64_from_le_bytes(b.subrange(0, 8)) == cs.len() as u64);
    assert(b.subrange(8, 8 + 3088 * cs.len() as int) =~= chunks_bytes(cs));
    lemma_parse_chunks_roundtrip(b, 8, cs);
}

/// The byte tag of a model value.
fn model_tag_of(m: Model) -> (t: u8)
    ensures
        t == model_tag(m),
{
    match m {
        Model::Wall => 0,
        Model::Corner => 1,
        Model::InnerCorner => 2,
        Model::Floor => 3,
    }
}

/// The byte tag of a rotation value.
fn rotation_tag_of(r: TileRotation) -> (t: u8)
    ensures
        t == rotation_tag(r),
{
    match r {
        TileRotation::Zero => 0,
        TileRotation::Quarter => 1,
        TileRotation::Half => 2,
        TileRotation::ThreeQuarters => 3,
    }
}

/// The model a byte names, if any.
fn model_of_tag(t: u8) -> (r: Option<Model>)
    ensures
        r == parse_model(t),
{
    if t == 0 {
        Some(Model::Wall)
    } else if t == 1 {
        Some(Model::Corner)
    } else if t == 2 {
        Some(Model::InnerCorner)
    } else if t == 3 {
        Some(Model::Floor)
    } else {
        None
    }
}

/// The rotation a byte names, if any.
fn rotation_of_tag(t: u8) -> (r: Option<TileRotation>)
    ensures
        r == parse_rotation(t),
{
    if t == 0 {
        Some(TileRotation::Zero)
    } else if t == 1 {
        Some(TileRotation::Quarter)
    } else if t == 2 {
        Some(TileRotation::Half)
    } else if t == 3 {
        Some(TileRotation::ThreeQuarters)
    } else {
        None
    }
}

impl TileMap {
    /// Serialize the whole grid to its persisted byte form.
    pub fn to_bytes(&self) -> (r: Vec<u8>)
        requires
            self.wf(),
        ensures
            r@ == map_bytes(self@),
    {
        let ghost cs = self@;
        let mut out: Vec<u8> = u64_to_le_bytes(self.0.len() as u64);
        let mut i: usize = 0;
        while i < self.0.len()
            invariant
                self.wf(),
                cs == self@,
                0 <= i <= cs.len(),
                out@ == spec_u64_to_le_bytes(cs.len() as u64) + chunks_bytes(cs.take(i as int)),
            decreases self.0@.len() - i,
        {
            let c = &self.0[i];
            let mut xb = u64_to_le_bytes(c.x as u64);
            out.append(&mut xb);
            let mut yb = u64_to_le_bytes(c.y as u64);
            out.append(&mut yb);
            let ghost tiles = c.tiles@;
            let mut k: usize = 0;
            while k < c.tiles.len()
                invariant
                    0 <= k <= tiles.len(),
                    tiles == c.tiles@,
                    out@ == spec_u64_to_le_bytes(cs.len() as u64) + chunks_bytes(
                        cs.take(i as int),
                    ) + spec_u64_to_le_bytes(c.x as u64) + spec_u64_to_le_bytes(c.y as u64)
                        + tiles_bytes(tiles.take(k as int)),
                decreases tiles.len() - k,
            {
                let t = c.tiles[k];
                out.push(t.height);
                out.push(model_tag_of(t.model));
                out.push(rotation_tag_of(t.rotation));
                proof {
                    assert(tiles.take(k + 1).drop_last() =~= tiles.take(k as int));
                    assert(tiles.take(k + 1).last() == tiles[k as int]);
                    assert(out@ =~= spec_u64_to_le_bytes(cs.len() as u64) + chunks_bytes(
                        cs.take(i as int),
                    ) + spec_u64_to_le_bytes(c.x as u64) + spec_u64_to_le_bytes(c.y as u64)
                        + tiles_bytes(tiles.take(k + 1)));
                }
                k += 1;
            }
            proof {
                assert(tiles.take(tiles.len() as int) =~= tiles);
                assert(cs.take(i + 1).drop_last() =~= cs.take(i as int));
                assert(cs.take(i + 1).last() == cs[i as int]);
                assert(cs[i as int] == c@);
                assert(out@ =~= spec_u64_to_le_bytes(cs.len() as u64) + chunks_bytes(
                    cs.take(i + 1),
                ));
            }
            i += 1;
        }
        proof {
            assert(cs.take(cs.len() as int) =~= cs);
        }
        out
    }

    /// Decode a persisted byte blob back into a grid. Returns exactly the
    /// map the format describes, or the error of the first offending record.
    pub fn from_bytes(data: &[u8]) -> (r: Result<TileMap, MapDecodeError>)
        ensures
            match r {
                Ok(m) => parse_map(data@) == Ok::<Seq<ChunkModel>, MapDecodeError>(m@) && m.wf(),
                Err(e) => parse_map(data@) == Err::<Seq<ChunkModel>, MapDecodeError>(e),
            },
    {
        let b = data;
        if b.len() < 8 {
            return Err(MapDecodeError::Truncated);
        }
        let n = u64_from_le_bytes(slice_subrange(b, 0, 8));
        let mut chunks: Vec<Chunk> = Vec::new();
        let mut off: usize = 8;
        let mut i: u64 = 0;
        proof {
            assert(chunks@.map_values(|c: Chunk| c@) =~= Seq::<ChunkModel>::empty());
        }
        while i < n
            invariant
                b@ == data@,
                b@.len() >= 8,
                n == spec_u64_from_le_bytes(b@.subrange(0, 8)),
                i <= n,
                off == 8 + 3088 * (i as int),
                off <= b@.len(),
                chunks@.len() == i,
                map_wf(chunks@.map_values(|c: Chunk| c@)),
                parse_chunks(b@, 8, i as nat) == Ok::<Seq<ChunkModel>, MapDecodeError>(
                    chunks@.map_values(|c: Chunk| c@),
                ),
            decreases n - i,
        {
            let ghost parsed = chunks@.map_values(|c: Chunk| c@);
            if b.len() - off < 16 {
                proof {
                    assert(parse_chunk(b@, off as int) == Err::<ChunkModel, MapDecodeError>(
                        MapDecodeError::Truncated,
                    ));
                    assert(parse_chunks(b@, 8, (i + 1) as nat) == Err::<
                        Seq<ChunkModel>,
                        MapDecodeError,
                    >(MapDecodeError::Truncated));
                    lemma_parse_chunks_err(b@, 8, (i + 1) as nat, n as nat);
                }
                return Err(MapDecodeError::Truncated);
            }
            let x_u = u64_from_le_bytes(slice_subrange(b, off, off + 8));
            let y_u = u64_from_le_bytes(slice_subrange(b, off + 8, off + 16));
            let x = x_u as i64;
            let y = y_u as i64;
            if x < -0x8000_0000 || x > 0x8000_0000 || y < -0x8000_0000 || y > 0x8000_0000 {
                proof {
                    assert(parse_chunk(b@, off as int) == Err::<ChunkModel, MapDecodeError>(
                        MapDecodeError::ChunkCoordOutOfRange,
                    ));
                    assert(parse_chunks(b@, 8, (i + 1) as nat) == Err::<
                        Seq<ChunkModel>,
                        MapDecodeError,
                    >(MapDecodeError::ChunkCoordOutOfRange));
                    lemma_parse_chunks_err(b@, 8, (i + 1) as nat, n as nat);
                }
                return Err(MapDecodeError::ChunkCoordOutOfRange);
            }
            let mut tiles: Vec<Tile> = Vec::new();
            let toff = off + 16;
            let mut k: usize = 0;
            while k < 1024
                invariant
                    b@ == data@,
                    b@.len() >= 8,
                    n == spec_u64_from_le_bytes(b@.subrange(0, 8)),
                    i < n,
                    off == 8 + 3088 * (i as int),
                    off + 16 <= b@.len(),
                    toff == off + 16,
                    0 <= k <= 1024,
                    toff + 3 * k <= b@.len(),
                    x == spec_u64_from_le_bytes(b@.subrange(off as int, off as int + 8)) as i64,
                    y == spec_u64_from_le_bytes(
                        b@.subrange(off as int + 8, off as int + 16),
                    ) as i64,
                    -0x8000_0000 <= x <= 0x8000_0000,
                    -0x8000_0000 <= y <= 0x8000_0000,
                    tiles@.len() == k,
                    parse_tiles(b@, toff as int, k as nat) == Ok::<Seq<Tile>, MapDecodeError>(
                        tiles@,
                    ),
                    parse_chunks(b@, 8, i as nat) == Ok::<Seq<ChunkModel>, MapDecodeError>(
                        chunks@.map_values(|c: Chunk| c@),
                    ),
                decreases 1024 - k,
            {
                if b.len() - toff < 3 * k + 3 {
                    proof {
                        assert(parse_tile(b@, toff + 3 * (k as int)) == Err::<
                            Tile,
                            MapDecodeError,
                        >(MapDecodeError::Truncated));
                        assert(parse_tiles(b@, toff as int, (k + 1) as nat) is Err);
                        lemma_parse_tiles_err(b@, toff as int, (k + 1) as nat, 1024);
                        assert(parse_chunk(b@, off as int) == Err::<ChunkModel, MapDecodeError>(
                            MapDecodeError::Truncated,
                        ));
                        assert(parse_chunks(b@, 8, (i + 1) as nat) is Err);
                        lemma_parse_chunks_err(b@, 8, (i + 1) as nat, n as nat);
                    }
                    return Err(MapDecodeError::Truncated);
                }
                let rec = toff + 3 * k;
                let height = *vstd::slice::slice_index_get(b, rec);
                let mtag = *vstd::slice::slice_index_get(b, rec + 1);
                let rtag = *vstd::slice::slice_index_get(b, rec + 2);
                let model = match model_of_tag(mtag) {
                    Some(m) => m,
                    None => {
                        proof {
                            assert(parse_tile(b@, toff + 3 * (k as int)) == Err::<
                                Tile,
                                MapDecodeError,
                            >(MapDecodeError::BadModelTag));
                            assert(parse_tiles(b@, toff as int, (k + 1) as nat) is Err);
                            lemma_parse_tiles_err(b@, toff as int, (k + 1) as nat, 1024);
                            assert(parse_chunk(b@, off as int) == Err::<
                                ChunkModel,
                                MapDecodeError,
                            >(MapDecodeError::BadModelTag));
                            assert(parse_chunks(b@, 8, (i + 1) as nat) is Err);
                            lemma_parse_chunks_err(b@, 8, (i + 1) as nat, n as nat);
                        }
                        return Err(MapDecodeError::BadModelTag);
                    },
                };
                let rotation = match rotation_of_tag(rtag) {
                    Some(r) => r,
                    None => {
                        proof {
                            assert(parse_tile(b@, toff + 3 * (k as int)) == Err::<
                                Tile,
                                MapDecodeError,
                            >(MapDecodeError::BadRotationTag));
                            assert(parse_tiles(b@, toff as int, (k + 1) as nat) is Err);
                            lemma_parse_tiles_err(b@, toff as int, (k + 1) as nat, 1024);
                            assert(parse_chunk(b@, off as int) == Err::<
                                ChunkModel,
                                MapDecodeError,
                            >(MapDecodeError::BadRotationTag));
                            assert(parse_chunks(b@, 8, (i + 1) as nat) is Err);
                            lemma_parse_chunks_err(b@, 8, (i + 1) as nat, n as nat);
                        }
                        return Err(MapDecodeError::BadRotationTag);
                    },
                };
                tiles.push(Tile { height, model, rotation });
                k += 1;
            }
            let chunk = Chunk { x, y, tiles };
            proof {
                assert(parse_chunk(b@, off as int) == Ok::<ChunkModel, MapDecodeError>(chunk@));
                assert(parse_chunks(b@, 8, (i + 1) as nat) == Ok::<
                    Seq<ChunkModel>,
                    MapDecodeError,
                >(parsed.push(chunk@)));
                assert(chunk_wf(chunk@));
            }
            chunks.push(chunk);
            proof {
                assert(chunks@.map_values(|c: Chunk| c@) =~= parsed.push(chunk@));
            }
            off = toff + 3072;
            i += 1;
        }
        let m = TileMap(chunks);
        proof {
            assert(parse_map(b@) == Ok::<Seq<ChunkModel>, MapDecodeError>(m@));
        }
        Ok(m)
    }
}

} // verus!
