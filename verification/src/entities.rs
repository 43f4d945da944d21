//! What moves over the map: the camera and the player.

pub mod camera;
pub mod player;
