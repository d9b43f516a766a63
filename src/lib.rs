//! Per-frame rules of a small third-person scene: a player node steered by
//! keys or a gamepad, and camera nodes that trail it.
//!
//! Coordinates and angles are fixed-point integers: one world unit (or one
//! radian) is `geometry::UNITS` steps.

pub mod geometry;
pub mod player;
pub mod camera;
pub mod lines;
