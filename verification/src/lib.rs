//! A small tile-based adventure: a scrolling tile map, a player who faces the
//! way they walk, and collision against tiles that cannot be walked through.

pub mod entities;
pub mod events;
pub mod frame;
pub mod rect;
pub mod tiles;
