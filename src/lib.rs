//! Dungeon generation over a seeded pipeline of carving stages, and a turn-gated
//! movement controller for a single player.
//!
//! - `grid`: cells, points, levels, and the flood fill that decides reachability.
//! - `stages`: the carving and placing steps that mapgen performs.
//! - `generator`: stage pipelines, their checking, and the laws of generation.
//! - `movement`: actions, steps, whose turn it is, and the player and monster systems.
//! - `render`: sprites and camera placement.
//! - `game`: the two ways to play: free movement, and turns with a move interval.
pub mod grid;
pub mod stages;
pub mod generator;
pub mod movement;
pub mod render;
pub mod game;
