//! A chess engine's search core: a sequential, iteratively deepened
//! alpha-beta search with quiescence resolution at the leaves, a fixed-size
//! transposition table with torn-write detection, a tapered
//! material-and-piece-square evaluator, a threefold-repetition guard and a
//! per-move time budget. Chess rules themselves come from a rule engine
//! that the core drives through a narrow trusted boundary.

pub mod bot;
pub mod clock;
pub mod lichess;
pub mod rule_engine;
pub mod uci;
