//! The things on the grid: the capability they share and the four kinds.

pub mod bullet;
pub mod enemy;
pub mod game_object_trait;
pub mod player;
pub mod wall;
