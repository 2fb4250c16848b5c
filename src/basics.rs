//! Numbers, control flow and plain functions.
pub mod control_flow;
pub mod functions;
