//! Authoritative core of a multi-player online Snake server: grid geometry,
//! wire messages and the room simulation.

pub mod model;
pub mod room;
pub mod tick;
pub mod laws;
pub mod session;
pub mod milestones;

pub use model::{Cell, Dir, PlayerSnapshot, C2S, S2C};
pub use room::{Player, Room};
