//! A small concurrent task-execution runtime whose coordination rules are
//! stated and proved with Verus, together with verified helper routines on
//! numbers, strings, slices and simple data types, and a course progress
//! tracker.
pub mod basics;
pub mod error_handling;
pub mod functional;
pub mod generics_traits;
pub mod ownership;
pub mod progress;
pub mod projects;
pub mod runtime;
pub mod structs_enums;
pub mod text;
pub mod utils;
