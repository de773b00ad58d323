//! Core rules of a side-scrolling glider game over a hexagonal terrain:
//! hex-grid coordinate math, terrain generation and growth, axis-aligned
//! collisions, plane spawning and movement, and the altitude state machine.
//!
//! All quantities are exact integers. World positions are whole screen
//! pixels; the terrain is drawn at half scale, so one map pixel spans two
//! world units. Fractional hex coordinates are fixed-point numbers over
//! [`hex::HEX_UNIT`], and altitude is counted in hundredths.
pub mod consts;
pub mod components;
pub mod hex;
mod random;
pub mod map;
pub mod systems;
pub mod session;
pub mod render;

pub use components::{Collider, Direction, Height, Plane, Player, Points, Transform};
pub use hex::{cube_round, cube_to_offset, offset_to_cube};
pub use map::{HexMap, HexTileData, Pixel};
pub use render::{
    render_hex_brick_top, render_hex_bricks, render_hex_map, render_hex_top, render_hex_walls,
    Surface, TileDraw,
};
pub use session::Session;
pub use systems::{
    despawn_planes, grow_ground, is_dead, move_planes, move_player, platform_spawner,
    player_height_visualiser, player_platform_check, scroll_map, spawn_plane, Input, PlaneEntity,
    SpawnTimer,
};
