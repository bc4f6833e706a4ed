//! A solver core for a five-letter word-guessing puzzle.
//!
//! The library holds the pure logic of the solver: computing the colour
//! feedback a guess earns against a true word, narrowing a dictionary to the
//! words consistent with observed feedback, counting how a guess partitions
//! the remaining candidates across the possible feedback patterns, and the
//! per-round decision of an interactive session. Reading the dictionary,
//! talking to the user and the floating-point scoring built on the partition
//! counts live outside the library.

pub mod pattern;
pub mod pool;
pub mod selector;
pub mod session;
pub mod words;
