//! The player's car builder and the heads-up display's bookkeeping.
pub mod builder;
pub mod hud;
