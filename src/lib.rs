//! The simulation core of a tile-based platformer: the solid-tile grid and its wall outline,
//! level classification, the game-object registry with tombstones and sweeps, the player's
//! progress, and the reactions to overlapping objects.

pub mod char_state;
pub mod grid;
pub mod input;
pub mod level;
pub mod movement;
pub mod objects;
pub mod session;
pub mod units;
pub mod walls;
