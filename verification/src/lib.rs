//! A time-budgeted evolutionary search for a soft lander trajectory.
//!
//! The core is a deterministic fixed-point model of the lander physics:
//! positions and speeds are kept in units of 1/2000 metre, accelerations in
//! milli-metres per turn squared, so that the semi-implicit integrator
//! (`position += speed + acc / 2`) is exact integer arithmetic. Angles are
//! whole degrees, thrust power and fuel whole units, as in the game the
//! terrain comes from.

pub mod config;
pub mod fitness;
pub mod game;
pub mod genetic;
pub mod geometry;
pub mod level;
pub mod nums;
pub mod rng;
pub mod ship;
pub mod trig;
