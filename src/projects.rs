//! Small practice projects.
pub mod calculator;
