//! Benchmarks that drive the application with synthetic input.

pub mod nav;
pub mod options;
pub mod phase;
pub mod report;
pub mod single;
pub mod slider;
pub mod stats;
pub mod summary;
