//! Verified core of safe bindings for KenLM language model inference.
//!
//! The library holds the parts of the bindings that decide things: how loading
//! options cross the C ABI, which strings may cross it, how sentences are split
//! into words, which scoring states belong to which model, and how failures are
//! reported. The calls into KenLM's C++ engine itself are made by the code that
//! sits around this library, which hands the engine's answers back as plain
//! values.

pub mod commands;
pub mod config;
pub mod error;
pub mod model;
pub mod text;
