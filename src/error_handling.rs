//! Recoverable errors with `Result` and `Option`.

pub mod error_handling;
pub mod result_option;
