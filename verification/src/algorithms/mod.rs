//! Algorithms written once against the capability lattice.

pub mod gaussian_elimination;
