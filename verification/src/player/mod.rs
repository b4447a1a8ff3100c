//! The player's progress.

pub mod tech;
