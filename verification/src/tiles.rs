//! The tile catalog and the maps laid out with it.

pub mod map_format;
pub mod tile_handler;
