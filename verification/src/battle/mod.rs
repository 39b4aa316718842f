//! The battle: damage, the episode cycle and the arena sports.
pub mod damage;
pub mod manager;
pub mod sports;
