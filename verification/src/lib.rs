//! A two-player diagonal-capture board game.
//!
//! The library holds the rules engine: board construction, legal-move
//! generation, move execution with capture and promotion, the decision
//! policies (random play and lookahead by self-play simulation), and the
//! turn loop that plays a game to completion. Rendering and input belong
//! to the binary built around this crate, not to the library.

pub mod actor;
pub mod board;
pub mod game;
pub mod piece;
pub mod point;
pub mod side;
