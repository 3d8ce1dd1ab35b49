//! Verified core of a scanner for compiled Move packages: a model of the
//! stackless bytecode, the bytecode detectors, the choice of an analysis
//! pipeline, the location of module declarations in source files and the
//! per-module summary that the knowledge graph is built from.

pub mod text;
pub mod bytecode;
pub mod detect;
pub mod pipeline;
pub mod result;
pub mod locate;
pub mod packages;
pub mod detectors;
pub mod compile;
pub mod stackless_bytecode_generator;
