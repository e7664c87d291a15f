//! The capability lattice, its derivation rules and the fixed-size containers.

pub mod blankets;
pub mod markers;
pub mod theorems;
pub mod types;
