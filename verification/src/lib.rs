//! A flock of boids on a torus, in fixed-point arithmetic.
//!
//! Positions, headings and times are integers (see [`units`]), so every rule
//! of the flock is exact: which boids count as neighbors, which steering
//! rule wins, how far a boid may turn in one tick and where it ends up.
//! The two things the rules cannot do on integers, finding the bearing of a
//! vector and the sine and cosine of a heading, are handed in by the caller.

pub mod units;
pub mod geometry;
pub mod boids;
pub mod steering;
pub mod shape;
pub mod laws;
