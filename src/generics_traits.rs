//! Generic functions and types.
pub mod generics;
