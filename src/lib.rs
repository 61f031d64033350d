//! Gameplay rules of a top-down survival game: a bounded queue of timed
//! tasks tied to the player's health, proximity interaction with tasks, and
//! a spawner of hostile agents whose numbers grow with elapsed time, all
//! placed on a discrete level grid.
//!
//! Positions are whole world units (one unit per pixel) and durations are
//! whole milliseconds, so every rule here is stated and proved over integers.

pub mod geometry;
pub mod level;
pub mod mouse_position;
pub mod player;
pub mod primary_camera;
mod random;
pub mod task;
pub mod tile;
pub mod zombie;

pub use geometry::{Offset, Point};
pub use level::{LevelGrid, LevelObject, AVG_TILE_DIMENSION, MAX_GRID_DIM, TILE_SIZE};
pub use mouse_position::MousePosition;
pub use player::{
    player_movement, player_task_input, Player, PlayerAction, PlayerHealthBar,
    FULL_HEALTH_LEVEL, MAX_HEALTH_UNITS,
};
pub use task::{
    Task, TaskInstance, TaskList, TaskTimer, MAX_TASKS, TASK_KIND_COUNT, TASK_LIFETIME_MS,
};
pub use primary_camera::clamp_to_tilemap;
pub use tile::{wall_colliders, WallCollider};
pub use zombie::{ZombieSpawns, WAVE_PERIOD_SECS};
