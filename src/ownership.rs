//! Moving, borrowing and slicing strings and arrays.
pub mod ownership;
pub mod references;
pub mod slices;
