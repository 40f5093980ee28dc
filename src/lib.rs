//! Simulation core of a terminal Flappy Bird game: player physics, obstacle
//! generation and collision, and the menu / playing / end mode machine.
//!
//! Velocities are kept in tenths of a cell per tick and elapsed time in
//! microseconds, so that every quantity of the simulation is an integer.
use vstd::prelude::*;

pub mod player;
pub mod random;
pub mod obstacle;
pub mod manager;
pub mod game;

verus! {

/// Width of the play area, in cells.
pub const SCREEN_WIDTH: i32 = 80;

/// Height of the play area, in cells; a player below it has fallen out.
pub const SCREEN_HEIGHT: i32 = 50;

/// Accumulated time, in microseconds, after which one physics step runs.
pub const FRAME_DURATION_US: u64 = 32500;

/// Smallest horizontal distance between two consecutive obstacles.
pub const MIN_OBSTACLE_DISTANCE: i32 = 20;

/// Largest horizontal distance between two consecutive obstacles.
pub const MAX_OBSTACLE_DISTANCE: i32 = 30;

/// Largest number of obstacles generated in one batch.
pub const MAX_OBSTACLES: i32 = 5;

/// Smallest number of obstacles generated in one batch.
pub const MIN_OBSTACLES: i32 = 2;

} // verus!
