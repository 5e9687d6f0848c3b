//! A terminal arcade shooter as a simulation engine: a player ship along the
//! bottom of a bounded grid, a swarm of enemies that sweeps and descends, and
//! bullets travelling both ways.
//!
//! The engine owns every entity and is driven from outside: a caller feeds it
//! elapsed time and key presses, and receives frames as bytes to write to a
//! terminal.

pub mod drive;
pub mod game;
pub mod laws;
pub mod objects;
pub mod random;
pub mod screen;
pub mod state;
