//! The systems that run once per tick.

pub mod player_input;
