//! Per-tick game logic of a small side-scrolling arcade game: a falling
//! player that jumps through gaps in obstacles moving in from the right.
//!
//! All lengths are fixed-point, in tenths of a screen pixel, so that the
//! kinematics are exact integer arithmetic.

pub mod bird;
mod chance;
pub mod game;
pub mod laws;
pub mod pillar;

pub use game::{Button, Game};
pub use bird::{Bird, Square};
pub use pillar::{Corners, Pillar};
