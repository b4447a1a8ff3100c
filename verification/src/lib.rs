//! Verified core of Cosmic Sim: the game rules, text protocols and bookkeeping
//! that the interactive terminal program drives.

pub mod ai;
pub mod console;
pub mod fleet;
pub mod player;
pub mod save;
pub mod strset;
pub mod text;
pub mod travel;
pub mod universe;
