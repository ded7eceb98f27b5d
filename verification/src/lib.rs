//! Population-based metaheuristic search over fixed-dimension vectors,
//! with fixed-point scalar arithmetic, a bat-algorithm and a
//! butterfly-optimization population engine, and a batch-trial harness
//! that folds many independent runs into min/avg/max statistics.

pub mod bats;
pub mod batch;
pub mod butterflies;
pub mod functions;
pub mod harness;
pub mod rng;
pub mod scalar;
pub mod vector;

pub use scalar::SCALE;
