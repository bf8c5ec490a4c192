//! Core simulation of a small 2D asteroid-shooting arcade game.
//!
//! Positions, velocities and screen extents are fixed-point integers in
//! thousandths of a pixel (see [`geometry::SCALE`]); radii are whole pixels;
//! durations are milliseconds; the ship's orientation is in milliradians.
//! Rendering, input polling and the trigonometry that turns an orientation
//! into a facing vector are left to the caller.

pub mod asteroid;
pub mod bullet;
pub mod game;
pub mod geometry;
pub mod random;
pub mod spaceship;
pub mod stellarobject;
