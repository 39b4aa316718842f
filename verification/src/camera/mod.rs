//! The spectator camera's choice of car to follow.
pub mod freecam;
