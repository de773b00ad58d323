use vstd::prelude::*;

verus! {

/// Horizontal distance between two neighbouring tiles of a row, in map pixels.
pub const FLOOR_WIDTH: i64 = 36;

/// Vertical distance between two rows of tiles, in map pixels.
pub const FLOOR_VERT_STEP: i64 = 28;

/// Vertical rise of one unit of tile height, in map pixels.
pub const FLOOR_DEPTH_STEP: i64 = 12;

/// How far below a tile's top its wall segment starts, in map pixels.
pub const WALL_VERT_OFFSET: i64 = 12;

/// How far below a tile's top its brick segment starts, in map pixels.
pub const WALL_VERT_STEP: i64 = 12;

/// Movement scale applied to the player's input each tick.
pub const PLAYER_SPEED: i64 = 5;

/// Highest ground height that terrain generation draws.
pub const MAX_FLOOR_HEIGHT: u8 = 2;

/// Highest wall height that the renderer walks through.
pub const MAX_BRICK_HEIGHT: u8 = 4;

/// Number of tile columns of a game map.
pub const WIDTH: usize = 1000;

/// Number of tile rows of a game map.
pub const HEIGHT: usize = 10;

/// Map pixels the terrain scrolls to the left each tick.
pub const SCROLL_RATE: i64 = 4;

/// Altitude units (hundredths) lost each tick.
pub const FALL_SPEED: i64 = 1;

/// Altitude (in hundredths) at the start and after each landing.
pub const START_HEIGHT: i64 = 500;

/// Score awarded for each tile that grows.
pub const POINTS_GROW: u32 = 10;

/// Seed of the terrain generator.
pub const MAP_SEED: u64 = 100;

/// Ticks between two plane spawns in a game session.
pub const SPAWN_INTERVAL: i32 = 70;

/// Draw layer of the player sprite.
pub const LAYER_PLAYER: u8 = 10;

/// Draw layer of plane sprites.
pub const LAYER_PLANE: u8 = 5;

/// Draw layer of tile walls.
pub const LAYER_WALL: u8 = 1;

/// Draw layer of tile tops.
pub const LAYER_FLOOR: u8 = 0;

} // verus!
