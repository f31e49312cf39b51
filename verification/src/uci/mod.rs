//! Decoding of UCI command arguments.

pub mod go;
pub mod perft;
pub mod position;
pub mod report;
pub mod split;
pub mod ucinewgame;
pub mod tokens;
