//! A tile-map editor core: a chunked tile grid with height/model/rotation
//! edits, fixed-point tile geometry generation, a texture-grouping sprite
//! batcher, and a binary persistence codec for the map.
//!
//! Coordinates and texture coordinates are fixed-point integers with
//! `COORD_SCALE` subunits per world unit, so all geometry arithmetic is exact.

pub mod vertex;
pub mod tile;
pub mod models;
pub mod map;
pub mod codec;
pub mod spritebatch;
pub mod geometry;
pub mod scene;
