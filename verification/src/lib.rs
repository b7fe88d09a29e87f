//! The parts of the Caustic path tracer that are made of integers and
//! text, with their proofs: the scene-description language up to the
//! instances of modules, the lattice tables behind procedural noise, the
//! axes, and the naming and access rules of the project store.
//!
//! The renderer itself computes in floating-point numbers and stands
//! outside this library; it draws on the tables and rules proved here.

pub mod axis;
pub mod noise;
pub mod openscad;
pub mod store;
pub mod text;
pub mod wasm;
