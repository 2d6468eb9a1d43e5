//! Per-tick simulation core of a two-dimensional shoot-'em-up: an entity store with deferred
//! removal, enemy formations on elliptical orbits, linear motion, box collisions, the
//! player's life and score, and timed explosions. Lengths are integers in thousandths of a
//! pixel, angles in microradians and times in milliseconds.
use vstd::prelude::*;

pub mod components;
pub mod geometry;
pub mod trig;
mod random;
pub mod formation;
pub mod player_state;
pub mod entity;
pub mod motion;
pub mod world;

verus! {

} // verus!
