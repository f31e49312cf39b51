//! The search core of a UCI chess engine.
//!
//! The rules of chess come from `cozy_chess`; everything built on top of them
//! (alpha-beta negamax, principal variation bookkeeping, iterative deepening,
//! time budgets and the parsing of search requests) is verified with Verus.

pub mod chess;
pub mod search;
pub mod uci;
