//! Coloured particles on a square torus that attract or repel one another
//! and leave a trail of paint on a canvas.
//!
//! Every quantity is a fixed-point number (see [`fixed`]), so each rule of
//! the simulation is an exact statement about integers.

pub mod fixed;
pub mod geometry;
pub mod force;
pub mod canvas;
pub mod pairing;
pub mod random;
pub mod integrator;
pub mod raster;
pub mod simulation;
pub mod world;
