//! Structs, enums and pattern matching.
pub mod enums;
pub mod pattern_matching;
pub mod structs;
