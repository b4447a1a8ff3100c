//! Classifications and naming of stars, planets and systems.

pub mod galaxy;
pub mod planet;
pub mod star;
pub mod system;
