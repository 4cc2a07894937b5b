//! A verified tic-tac-toe engine: a bitset board model, a pure move
//! applicator, an exhaustive game-tree evaluator that decides which outcomes
//! are inevitable under play from each position, and move-selection brains
//! (perfect play, random, human-prompted).  All rendering and input is left
//! to the surrounding application.

pub mod board;
pub mod brain;
pub mod session;
pub mod tree;
mod random;
