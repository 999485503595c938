//! A procedural world generator for a tile-based robot simulation.
//!
//! The crate builds a square grid of tiles in several phases: an elevation
//! field is classified into terrain kinds by ordered thresholds, a street
//! network is carved along Voronoi cell boundaries over local elevation
//! maxima, lava flows downhill from mountain tiles, organically shaped
//! "blob" regions place fire and trees, and garbage piles are stamped from
//! concentric-ring probability matrices.  A small robot-simulation harness
//! (energy, backpack, movement interface) accompanies the generator.
//!
//! Elevations and probabilities are held as fixed-point integers so that
//! every phase of the pipeline is expressed over plain values; the
//! floating-point noise and geometry samplers live outside the library,
//! behind the [`generator::GeometrySource`] trait.

pub mod content;
pub mod energy;
pub mod generator;
pub mod interface;
pub(crate) mod rng;
pub mod runner;
pub mod tile_type;
pub mod utils;
pub mod world;
