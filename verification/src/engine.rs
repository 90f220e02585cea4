//! The analysis engine.

pub mod analyzer;
pub mod cargo;
pub mod project;
