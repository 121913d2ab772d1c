//! Rule engine for Oak, a four-seat partnership trick-taking card game with an
//! information-coded auction followed by thirteen tricks of play.

pub mod primitives;
pub mod bidding;
pub mod game;
pub mod evaluation;
pub mod auction;
pub mod play;
pub mod agent;
pub mod deck;
pub mod heuristic;
pub mod state;
pub mod test_helpers;
