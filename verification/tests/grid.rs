//! Behaviour of the chunked grid, the coordinate maths, and the tile value
//! operations.

use line_monsters::map::{coordinate_to_chunk, Chunk, TileMap};
use line_monsters::scene::Scene;
use line_monsters::tile::{Model, Tile, TileRotation};
use line_monsters::geometry::fits_budget;
use line_monsters::vertex::Vertex;

#[test]
fn coordinates_round_trip_for_negative_positions() {
    let (cx, cy, lx, ly) = coordinate_to_chunk(-1, -1);
    assert_eq!((cx, cy, lx, ly), (-1, -1, 31, 31));
    let (cx, _, lx, _) = coordinate_to_chunk(-32, 0);
    assert_eq!((cx, lx), (-1, 0));
    let (cx, _, lx, _) = coordinate_to_chunk(-33, 0);
    assert_eq!((cx, lx), (-2, 31));
}

#[test]
fn coordinates_split_positive_positions() {
    assert_eq!(coordinate_to_chunk(0, 0), (0, 0, 0, 0));
    assert_eq!(coordinate_to_chunk(31, 32), (0, 1, 31, 0));
    assert_eq!(coordinate_to_chunk(65, 5), (2, 0, 1, 5));
}

#[test]
fn world_coordinate_reconstructs_from_chunk_and_local() {
    for &x in &[-100i64, -33, -32, -1, 0, 1, 31, 32, 100, 12345] {
        let (cx, _, lx, _) = coordinate_to_chunk(x, 0);
        assert_eq!(cx * 32 + lx as i64, x);
        assert!(lx < 32);
    }
}

#[test]
fn scene_exposes_the_same_coordinate_resolution() {
    assert_eq!(Scene::xy_to_chunk_coord(-1, 64), (-1, 2, 31, 0));
}

#[test]
fn new_chunk_is_all_flat_floor() {
    let c = Chunk::new(2, -3);
    assert_eq!(c.x, 2);
    assert_eq!(c.y, -3);
    assert_eq!(c.tiles.len(), 1024);
    for t in &c.tiles {
        assert_eq!(t.height, 0);
        assert!(matches!(t.model, Model::Floor));
        assert!(matches!(t.rotation, TileRotation::Zero));
    }
}

#[test]
fn set_then_get_round_trips_inside_a_chunk() {
    let mut map = TileMap(vec![Chunk::new(0, 0)]);
    let t = Tile::new_rotation(7, Model::Wall, TileRotation::Half);
    assert!(map.set_tile(5, 9, t));
    let back = map.get_tile(5, 9).unwrap();
    assert_eq!(back, t);
    assert_eq!(map.get_tile(6, 9).unwrap().height, 0);
}

#[test]
fn lookup_outside_every_chunk_misses() {
    let mut map = TileMap(vec![Chunk::new(0, 0)]);
    assert!(map.get_tile(-1, -1).is_none());
    assert!(map.get_tile(32, 0).is_none());
    let t = Tile::new_rotation(1, Model::Floor, TileRotation::Zero);
    assert!(!map.set_tile(-1, -1, t));
    assert_eq!(map.get_tile(0, 0).unwrap().height, 0);
}

#[test]
fn negative_coordinates_address_their_own_chunk() {
    let mut map = TileMap(vec![Chunk::new(-1, -1), Chunk::new(0, 0)]);
    let t = Tile::new_rotation(9, Model::Corner, TileRotation::Quarter);
    assert!(map.set_tile(-1, -1, t));
    assert_eq!(map.get_tile(-1, -1).unwrap(), t);
    assert_eq!(map.get_tile(0, 0).unwrap().height, 0);
}

#[test]
fn rotation_cycles_back_after_four_steps() {
    let mut r = TileRotation::Zero;
    let mut seen = Vec::new();
    for _ in 0..4 {
        seen.push(r);
        r.rotate_next();
    }
    assert!(matches!(r, TileRotation::Zero));
    assert!(matches!(seen[1], TileRotation::Quarter));
    assert!(matches!(seen[2], TileRotation::Half));
    assert!(matches!(seen[3], TileRotation::ThreeQuarters));
}

#[test]
fn model_swap_ring_cycles_back_after_four_steps() {
    let mut m = Model::Wall;
    m.swap_model();
    assert!(matches!(m, Model::Floor));
    m.swap_model();
    assert!(matches!(m, Model::Corner));
    m.swap_model();
    assert!(matches!(m, Model::InnerCorner));
    m.swap_model();
    assert!(matches!(m, Model::Wall));
}

#[test]
fn quarter_turn_maps_x_y_z_to_z_y_minus_x() {
    let v = Vertex {
        pos_x: 1,
        pos_y: 2,
        pos_z: 3,
        tex_u: 40,
        tex_v: 50,
    };
    let r = TileRotation::Quarter.rotate_vertice(&v);
    assert_eq!((r.pos_x, r.pos_y, r.pos_z), (3, 2, -1));
    assert_eq!((r.tex_u, r.tex_v), (40, 50));
}

#[test]
fn four_quarter_turns_restore_a_vertex_exactly() {
    let v = Vertex {
        pos_x: -125,
        pos_y: 375,
        pos_z: 500,
        tex_u: 0,
        tex_v: 1000,
    };
    let mut r = v;
    for _ in 0..4 {
        r = TileRotation::Quarter.rotate_vertice(&r);
    }
    assert_eq!(r, v);
}

#[test]
fn model_tables_have_the_expected_sizes() {
    let (v, i) = Model::Floor.get_model();
    assert_eq!((v.len(), i.len()), (4, 6));
    let (v, i) = Model::Wall.get_model();
    assert_eq!((v.len(), i.len()), (8, 18));
    let (v, i) = Model::Corner.get_model();
    assert_eq!((v.len(), i.len()), (11, 33));
    let (v, i) = Model::InnerCorner.get_model();
    assert_eq!((v.len(), i.len()), (11, 33));
    for (verts, idxs) in [
        Model::Floor.get_model(),
        Model::Wall.get_model(),
        Model::Corner.get_model(),
        Model::InnerCorner.get_model(),
    ] {
        for &ix in &idxs {
            assert!((ix as usize) < verts.len());
        }
    }
}

#[test]
fn the_geometry_budget_check_matches_the_index_space() {
    let small = TileMap((0..15).map(|i| Chunk::new(i, 0)).collect());
    assert!(fits_budget(&small));
    // sixteen full floor chunks put the floor pass at 65536 vertices,
    // past the 16-bit index space
    let big = TileMap((0..16).map(|i| Chunk::new(i, 0)).collect());
    assert!(!fits_budget(&big));
}
