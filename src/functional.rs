//! Closures and hand-written sequences.
pub mod functional;
