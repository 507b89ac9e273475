//! An N-in-a-row board game engine and a hub of game sessions.

pub mod hub;
pub mod laws;
pub mod tictac;
