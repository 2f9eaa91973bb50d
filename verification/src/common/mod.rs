//! Shared types and utilities.
pub mod math;
pub mod text;
pub mod types;
pub mod utils;
