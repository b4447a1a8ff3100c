//! The ship's AI and the companions: conversation state, the game-effect
//! grammar of replies, and the crew.

pub mod companion;
pub mod computer;
pub mod effects;
