//! A Physarum-style slime mold simulation core.
//!
//! Agents move across a toroidal 2D field, sense a scalar trail map at three
//! angular offsets, steer toward the strongest signal, and deposit pheromone
//! at their new position; the trail map is then diffused and decayed each
//! frame before being turned into an image. All quantities are fixed-point
//! integers — distances in milli-cells, angles in whole degrees — so that
//! every stage of the pipeline can be verified.

pub mod agent;
pub mod driver;
pub mod field;
pub mod params;
pub mod post;
pub mod rng;
pub mod trig;
