//! Simulation core of a grid-based dungeon crawler: a tile map with
//! walkability and opacity, procedural dungeon generation, line-of-sight
//! visibility, and turn-oriented entity movement with collision.

use vstd::prelude::*;

pub mod actions;
pub mod components;
pub mod connectivity;
pub mod field_of_view;
pub mod fov;
pub mod game_log;
pub mod generation;
pub mod grid_map;
pub mod movement;
pub mod position;
pub mod registry;
pub mod rng;
pub mod room;
pub mod spawner;
pub mod terrain;
pub mod turn_state;

verus! {

/// Names fixed at build time that the surrounding application reads.
pub struct AppConstants;

impl AppConstants {
    /// Asset folder, relative to the program's working directory.
    pub const BASE: &'static str = "./assets";
    /// Name of the app.
    pub const APP_NAME: &'static str = "BasicRoguelike";
}

} // verus!
