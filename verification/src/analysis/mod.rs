//! The data collected from the game process and the decisions of the walks
//! that collect it.

pub mod convars;
pub mod game_events;
pub mod resources;
pub mod schemas;
