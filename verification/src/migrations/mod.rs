//! Schema migrations: operations, their SQL, and change detection.

pub mod operations;
pub mod detector;
pub mod runner;
