//! Algebraic structures as a lattice of capabilities, fixed-size containers
//! over their elements, and Gaussian forward elimination over any field.

pub mod algorithms;
pub mod base;
