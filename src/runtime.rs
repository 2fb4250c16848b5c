//! The concurrency core: counters, registries, caches, barriers and the
//! dispatcher / worker-pool state machines that a threaded host drives.
pub mod counter;
pub mod registry;
pub mod cache;
pub mod barrier;
pub mod dispatcher;
pub mod pool;
