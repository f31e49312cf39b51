//! Chess-side helpers: the boundary to the rules engine, score constants,
//! static evaluation, move generation, move notation and perft.

pub mod constants;
pub mod eval;
pub mod move_gen;
pub mod parse_move;
pub mod perft;
pub mod rules;
