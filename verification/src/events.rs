//! What happens to the player: key presses and collisions.

pub mod collision_handler;
pub mod key_handler;
