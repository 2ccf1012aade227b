//! The constraint system, the circuit built over it and the builder of circuits.

pub mod builder;
pub mod circuit;
pub mod inputs;
pub mod r1cs;
pub mod synthesis;
pub mod translation;
