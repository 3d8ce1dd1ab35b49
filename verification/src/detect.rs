//! Detectors over the stackless bytecode of a function.

pub mod detect1;
pub mod detect3;
pub mod detect4;
