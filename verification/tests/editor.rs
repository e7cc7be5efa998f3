//! The editor scene: intent flags, the per-tick edit order, the selection
//! cursor, saturation, saving, and the two-pass batched geometry.

use line_monsters::map::{Chunk, TileMap};
use line_monsters::scene::{Key, Scene};
use line_monsters::tile::{Model, Tile, TileRotation};
use line_monsters::vertex::TextureHandle;

const GRASS: TextureHandle = TextureHandle {
    id: 1,
    width: 256,
    height: 256,
};
const WALL: TextureHandle = TextureHandle {
    id: 2,
    width: 256,
    height: 256,
};

fn one_chunk_scene() -> Scene {
    Scene::new(GRASS, WALL, TileMap(vec![Chunk::new(0, 0)]))
}

#[test]
fn raising_twice_lifts_only_the_selected_tile() {
    let mut scene = one_chunk_scene();
    scene.selected = (5, 5);
    scene.input(Key::Raise, true);
    scene.tick();
    scene.input(Key::Raise, true);
    let out = scene.tick();
    assert_eq!(scene.get_tile(5, 5).unwrap().height, 2);
    for x in 0..32 {
        for y in 0..32 {
            if (x, y) != (5, 5) {
                assert_eq!(scene.get_tile(x, y).unwrap().height, 0);
            }
        }
    }
    // all tiles are floors, so the whole frame is one grass-textured batch;
    // the wall batch is absent
    assert_eq!(out.batches.len(), 1);
    assert_eq!(out.batches[0].texture.id, GRASS.id);
    assert_eq!(out.batches[0].vertices.len(), 1024 * 4);
    assert_eq!(out.batches[0].indices.len(), 1024 * 6);
}

#[test]
fn editing_outside_every_chunk_is_a_silent_no_op() {
    let mut scene = one_chunk_scene();
    scene.selected = (-1, -1);
    scene.input(Key::Raise, true);
    scene.tick();
    for x in 0..32 {
        for y in 0..32 {
            assert_eq!(scene.get_tile(x, y).unwrap().height, 0);
        }
    }
    assert!(scene.get_tile(-1, -1).is_none());
}

#[test]
fn raising_at_the_top_saturates() {
    let mut scene = one_chunk_scene();
    scene
        .chunks
        .set_tile(3, 4, Tile::new_rotation(255, Model::Floor, TileRotation::Zero));
    scene.selected = (3, 4);
    scene.input(Key::Raise, true);
    scene.tick();
    assert_eq!(scene.get_tile(3, 4).unwrap().height, 255);
}

#[test]
fn lowering_at_the_ground_saturates() {
    let mut scene = one_chunk_scene();
    scene.selected = (3, 4);
    scene.input(Key::Lower, true);
    scene.tick();
    assert_eq!(scene.get_tile(3, 4).unwrap().height, 0);
    scene
        .chunks
        .set_tile(3, 4, Tile::new_rotation(2, Model::Floor, TileRotation::Zero));
    scene.input(Key::Lower, true);
    scene.tick();
    assert_eq!(scene.get_tile(3, 4).unwrap().height, 1);
}

#[test]
fn swapping_cycles_the_selected_tile_model() {
    let mut scene = one_chunk_scene();
    scene.selected = (0, 0);
    scene.input(Key::SwapModel, true);
    scene.tick();
    assert!(matches!(scene.get_tile(0, 0).unwrap().model, Model::Corner));
}

#[test]
fn rotating_cycles_the_selected_tile_rotation() {
    let mut scene = one_chunk_scene();
    scene.selected = (2, 2);
    scene.input(Key::RotateTile, true);
    scene.tick();
    assert!(matches!(
        scene.get_tile(2, 2).unwrap().rotation,
        TileRotation::Quarter
    ));
}

#[test]
fn movement_steps_one_cell_per_tick_and_clears_its_intent() {
    let mut scene = one_chunk_scene();
    scene.input(Key::MoveRight, true);
    scene.input(Key::MoveDown, true);
    scene.tick();
    assert_eq!(scene.selected, (1, 1));
    // the flags were cleared, so another tick moves nothing
    scene.tick();
    assert_eq!(scene.selected, (1, 1));
    scene.input(Key::MoveUp, true);
    scene.input(Key::MoveLeft, true);
    scene.tick();
    assert_eq!(scene.selected, (0, 0));
}

#[test]
fn every_intent_flag_is_cleared_by_a_tick() {
    let mut scene = one_chunk_scene();
    for key in [
        Key::MoveUp,
        Key::MoveLeft,
        Key::MoveDown,
        Key::MoveRight,
        Key::SaveMap,
        Key::Raise,
        Key::Lower,
        Key::SwapModel,
        Key::RotateTile,
    ] {
        scene.input(key, true);
    }
    scene.tick();
    assert!(!scene.move_select_up);
    assert!(!scene.move_select_down);
    assert!(!scene.move_select_left);
    assert!(!scene.move_select_right);
    assert!(!scene.save_map_return);
    assert!(!scene.raise);
    assert!(!scene.lower);
    assert!(!scene.swap_model);
    assert!(!scene.rotate_tile);
}

#[test]
fn a_save_intent_hands_out_the_serialized_map() {
    let mut scene = one_chunk_scene();
    let expected = scene.serialize();
    scene.input(Key::SaveMap, true);
    let out = scene.tick();
    assert_eq!(out.saved, Some(expected));
    let out = scene.tick();
    assert_eq!(out.saved, None);
}

#[test]
fn a_wall_tile_splits_the_frame_into_two_texture_batches() {
    let mut scene = one_chunk_scene();
    scene
        .chunks
        .set_tile(7, 7, Tile::new_rotation(0, Model::Wall, TileRotation::Zero));
    let out = scene.tick();
    assert_eq!(out.batches.len(), 2);
    assert_eq!(out.batches[0].texture.id, GRASS.id);
    assert_eq!(out.batches[1].texture.id, WALL.id);
    // 1023 floors in the grass pass, one wall in the wall pass
    assert_eq!(out.batches[0].vertices.len(), 1023 * 4);
    assert_eq!(out.batches[1].vertices.len(), 8);
    assert_eq!(out.batches[1].indices.len(), 18);
}

#[test]
fn a_corner_tile_renders_in_both_passes() {
    let mut scene = one_chunk_scene();
    scene
        .chunks
        .set_tile(0, 0, Tile::new_rotation(0, Model::Corner, TileRotation::Zero));
    let out = scene.tick();
    assert_eq!(out.batches.len(), 2);
    // the corner keeps its floor backing in the grass pass
    assert_eq!(out.batches[0].vertices.len(), 1024 * 4);
    assert_eq!(out.batches[1].vertices.len(), 11);
}

#[test]
fn the_selected_tile_is_lifted_a_quarter_unit() {
    let mut scene = one_chunk_scene();
    scene.selected = (0, 0);
    let out = scene.tick();
    // the first four vertices belong to tile (0, 0): a floor at height 0,
    // lifted by 250 subunits; its neighbour sits at -500
    assert_eq!(out.batches[0].vertices[0].pos_y, -500 + 250);
    assert_eq!(out.batches[0].vertices[4].pos_y, -500);
}

#[test]
fn geometry_is_placed_at_world_positions_in_subunits() {
    let mut scene = one_chunk_scene();
    scene.selected = (-100, -100);
    let out = scene.tick();
    // tile (1, 0) is the second tile of the row: its local x spans
    // [-500, 500] around the tile centre, shifted one world unit
    let v = &out.batches[0].vertices[4];
    assert_eq!(v.pos_x, -500 + 1000);
    assert_eq!(v.pos_z, -500);
}

#[test]
fn deserialize_replaces_the_grid_and_rejects_bad_bytes() {
    let mut scene = one_chunk_scene();
    let mut other = TileMap(vec![Chunk::new(4, 4)]);
    other.set_tile(4 * 32, 4 * 32, Tile::new_rotation(3, Model::Wall, TileRotation::Half));
    let bytes = other.to_bytes();
    scene.deserialize(&bytes).unwrap();
    assert_eq!(scene.get_tile(4 * 32, 4 * 32).unwrap().height, 3);
    assert!(scene.get_tile(0, 0).is_none());
    assert!(scene.deserialize(&bytes[0..10]).is_err());
}

#[test]
fn a_negative_chunk_makes_negative_coordinates_editable() {
    let mut scene = Scene::new(
        GRASS,
        WALL,
        TileMap(vec![Chunk::new(0, 0), Chunk::new(-1, -1)]),
    );
    scene.selected = (-1, -1);
    scene.input(Key::Raise, true);
    scene.tick();
    assert_eq!(scene.get_tile(-1, -1).unwrap().height, 1);
    assert_eq!(scene.get_tile(0, 0).unwrap().height, 0);
}
