//! Movement synchronisation for players walking on a tile grid: facing
//! directions, the four-stage walk cycle, the server's authoritative move
//! resolution with join/leave fan-out, and the client's projection of it.

pub mod client;
pub mod direction;
pub mod protocol;
pub mod resolver;
pub mod server;
pub mod walk_animation;
