use crate::chess::rules::{board_of_fen, start_fen};
use cozy_chess::Board;
use vstd::prelude::*;

verus! {

/// Handles `ucinewgame`: sets the board up for a new game.
pub fn ucinewgame(board: &mut Board)
    ensures
        board_of_fen(start_fen()) == Some(*final(board)),
{
    *board = Board::startpos();
}

} // verus!
