//! The persisted byte format: exact layout, round trips, and every decode
//! error.

use line_monsters::codec::MapDecodeError;
use line_monsters::map::{Chunk, TileMap};
use line_monsters::tile::{Model, Tile, TileRotation};

fn sample_map() -> TileMap {
    let mut map = TileMap(vec![Chunk::new(0, 0), Chunk::new(-1, 2)]);
    map.set_tile(5, 9, Tile::new_rotation(7, Model::Wall, TileRotation::Half));
    map.set_tile(
        -3,
        70,
        Tile::new_rotation(255, Model::InnerCorner, TileRotation::ThreeQuarters),
    );
    map
}

#[test]
fn serialize_then_deserialize_restores_every_chunk_and_tile() {
    let map = sample_map();
    let bytes = map.to_bytes();
    let back = TileMap::from_bytes(&bytes).unwrap();
    assert_eq!(back.0.len(), map.0.len());
    for (a, b) in map.0.iter().zip(back.0.iter()) {
        assert_eq!(a.x, b.x);
        assert_eq!(a.y, b.y);
        assert_eq!(a.tiles.len(), b.tiles.len());
        for (ta, tb) in a.tiles.iter().zip(b.tiles.iter()) {
            assert_eq!(ta, tb);
        }
    }
}

#[test]
fn empty_map_serializes_to_a_zero_count() {
    let map = TileMap(Vec::new());
    let bytes = map.to_bytes();
    assert_eq!(bytes, vec![0u8; 8]);
    let back = TileMap::from_bytes(&bytes).unwrap();
    assert_eq!(back.0.len(), 0);
}

#[test]
fn the_byte_layout_is_fixed_little_endian_records() {
    let mut map = TileMap(vec![Chunk::new(-2, 3)]);
    map.set_tile(-64, 96, Tile::new_rotation(9, Model::Corner, TileRotation::Quarter));
    let bytes = map.to_bytes();
    assert_eq!(bytes.len(), 8 + 16 + 3 * 1024);
    // one chunk
    assert_eq!(bytes[0..8].to_vec(), vec![1, 0, 0, 0, 0, 0, 0, 0]);
    // x = -2, y = 3, signed 64-bit little-endian
    assert_eq!(bytes[8..16].to_vec(), (-2i64).to_le_bytes().to_vec());
    assert_eq!(bytes[16..24].to_vec(), 3i64.to_le_bytes().to_vec());
    // the edited tile sits at local (0, 0): the first tile record
    assert_eq!(bytes[24..27].to_vec(), vec![9, 1, 1]);
    // its neighbour is an untouched floor: height 0, model tag 3, rotation 0
    assert_eq!(bytes[27..30].to_vec(), vec![0, 3, 0]);
}

#[test]
fn truncated_data_is_rejected() {
    assert!(matches!(TileMap::from_bytes(&[]), Err(MapDecodeError::Truncated)));
    assert!(matches!(TileMap::from_bytes(&[0; 7]), Err(MapDecodeError::Truncated)));
    // a count of one chunk, but no record behind it
    let mut bytes = 1u64.to_le_bytes().to_vec();
    assert!(matches!(TileMap::from_bytes(&bytes), Err(MapDecodeError::Truncated)));
    // a record that stops in the middle of its tiles
    bytes.extend_from_slice(&0i64.to_le_bytes());
    bytes.extend_from_slice(&0i64.to_le_bytes());
    bytes.extend_from_slice(&[0, 3, 0]);
    assert!(matches!(TileMap::from_bytes(&bytes), Err(MapDecodeError::Truncated)));
}

#[test]
fn an_unknown_model_tag_is_rejected() {
    let map = TileMap(vec![Chunk::new(0, 0)]);
    let mut bytes = map.to_bytes();
    bytes[25] = 4;
    assert!(matches!(TileMap::from_bytes(&bytes), Err(MapDecodeError::BadModelTag)));
}

#[test]
fn an_unknown_rotation_tag_is_rejected() {
    let map = TileMap(vec![Chunk::new(0, 0)]);
    let mut bytes = map.to_bytes();
    bytes[26] = 9;
    assert!(matches!(TileMap::from_bytes(&bytes), Err(MapDecodeError::BadRotationTag)));
}

#[test]
fn a_chunk_coordinate_out_of_range_is_rejected() {
    let map = TileMap(vec![Chunk::new(0, 0)]);
    let mut bytes = map.to_bytes();
    let far = i64::MAX.to_le_bytes();
    bytes[8..16].copy_from_slice(&far);
    assert!(matches!(
        TileMap::from_bytes(&bytes),
        Err(MapDecodeError::ChunkCoordOutOfRange)
    ));
}

#[test]
fn the_earliest_bad_record_decides_the_error() {
    let map = TileMap(vec![Chunk::new(0, 0), Chunk::new(1, 0)]);
    let mut bytes = map.to_bytes();
    // a bad rotation tag in the first chunk, a bad model tag in the second
    bytes[26] = 7;
    bytes[8 + 3088 + 16 + 1] = 200;
    assert!(matches!(TileMap::from_bytes(&bytes), Err(MapDecodeError::BadRotationTag)));
}

#[test]
fn trailing_bytes_after_the_announced_chunks_are_ignored() {
    let map = TileMap(vec![Chunk::new(0, 0)]);
    let mut bytes = map.to_bytes();
    bytes.push(0xAB);
    let back = TileMap::from_bytes(&bytes).unwrap();
    assert_eq!(back.0.len(), 1);
}
