//! Tick-driven arcade shooter simulation: a player ship on an integer grid
//! fires bounded ammunition at descending enemy ships and rocks, scoring
//! points until struck.  Rendering and input decoding live outside; this
//! crate holds the state transitions and collision resolution.

pub mod bullet;
pub mod enemy;
pub mod grid;
pub mod player;
pub mod resolve;
pub mod session;
