//! The script writer and what it builds on.

pub mod ass;
pub mod rows;
pub mod utils;
