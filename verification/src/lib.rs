//! A minimal mutation-based fuzzing core.
//!
//! The library holds the logic of the engine: a deterministic xorshift
//! pseudo-random generator, a byte-level mutator that stamps boundary-value
//! magic patterns into a copy of a seed input, derivation of the collision-free
//! file paths that workers use, classification of a target's termination
//! status, the per-worker batching state machine, and the shared statistics
//! counters. Reading the seed, writing temporary files, spawning the target
//! and the worker threads are left to the surrounding program, which drives
//! these verified pieces.

pub mod mutator;
pub mod paths;
pub mod rng;
pub mod stats;
pub mod status;
pub mod worker;
