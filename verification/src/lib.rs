//! Rules engine and move-search AI for Dou Shou Qi (Jungle Chess).
//!
//! The engine models the fixed 7 x 9 board with its terrain (grass, water,
//! traps, dens), the ranked animal pieces of the two players, the legality of
//! moves (including tiger/lion water jumps and the rat/elephant capture
//! exceptions), move application, and a deterministic bounded-depth minimax
//! move chooser.

pub mod game;
pub mod board;
pub mod rules;
pub mod moves;
pub mod search;
pub mod laws;
