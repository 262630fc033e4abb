//! Player turn resolution for a turn-based dungeon crawler.
//!
//! One key press becomes one committed action: a move, a melee attack, a
//! pick-up or the use of a carried item. Structural changes to the world are
//! never made while it is being read; they are queued in a [`commands::CommandBuffer`].

pub mod geometry;
pub mod camera;
pub mod components;
pub mod commands;
pub mod input;
pub mod world;
pub mod systems;
pub mod laws;
