//! Index bookkeeping and vector arithmetic for a pairwise-gravity particle simulation.
pub mod naming;
pub mod pairs;
pub mod partners;
pub mod symmetry;
pub mod vectors;
