//! A gravitational N-body simulation: how a run and each of its steps
//! proceed, with their proofs. The floating-point arithmetic (the force law,
//! the sum of two forces, the motion of a body) is handed in by the caller.
pub mod config;
pub mod driver;
pub mod interaction;
pub mod universe;
