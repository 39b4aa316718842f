//! Discrete core of a voxel car battle arena with NEAT-evolved drivers.
//!
//! Quantities that the arena simulates with real numbers are held here in
//! fixed point: lengths in millimetres, durations in milliseconds, health,
//! damage, rewards and network weights in thousandths ("milli" units).
pub mod ai;
pub mod arena;
pub mod assets_loader;
pub mod arith;
pub mod battle;
pub mod camera;
pub mod physics;
pub mod random;
pub mod ui;
pub mod voxel;
pub mod weapons;

use vstd::prelude::*;

verus! {

} // verus!
