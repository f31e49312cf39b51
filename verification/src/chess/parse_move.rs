use crate::chess::rules::{move_text, parse_move_text, parsed_move, piece_at, write_move_text};
use cozy_chess::{Board, Move, MoveParseError, Piece, Square};
use vstd::prelude::*;
use vstd::string::StringExecFns;

verus! {

/// Where a king's castling move ends in the notation of the rules engine,
/// which writes castling as the king capturing its own rook.
pub open spec fn castling_target(from: Square, to: Square) -> Square {
    match (from, to) {
        (Square::E1, Square::G1) => Square::H1,
        (Square::E8, Square::G8) => Square::H8,
        (Square::E1, Square::C1) => Square::A1,
        (Square::E8, Square::C8) => Square::A8,
        _ => to,
    }
}

/// The move of the rules engine for a move read in standard notation, given
/// the pieces on its two squares: a king that does not land on a rook is
/// sent to its castling rook where the squares are those of castling.
pub open spec fn engine_move(mover: Option<Piece>, target: Option<Piece>, mv: Move) -> Move {
    if mover == Some(Piece::King) && target != Some(Piece::Rook) {
        Move { from: mv.from, to: castling_target(mv.from, mv.to), promotion: mv.promotion }
    } else {
        mv
    }
}

/// The standard notation of a move of the rules engine, given the piece that
/// moves: a king that captures its rook from its home square is written as
/// the king moving two files.
pub open spec fn standard_text(mover: Option<Piece>, mv: Move) -> Seq<char> {
    if mover == Some(Piece::King) {
        match (mv.from, mv.to) {
            (Square::E1, Square::H1) => "e1g1"@,
            (Square::E8, Square::H8) => "e8g8"@,
            (Square::E1, Square::A1) => "e1c1"@,
            (Square::E8, Square::A8) => "e8c8"@,
            _ => move_text(mv),
        }
    } else {
        move_text(mv)
    }
}

/// Reads a move in standard notation and turns castling into the form the
/// rules engine plays.
pub fn parse_move(board: &Board, movestr: &str) -> (parsed: Result<Move, MoveParseError>)
    ensures
        match parsed_move(movestr@) {
            Some(mv) => parsed == Ok::<Move, MoveParseError>(
                engine_move(piece_at(*board, mv.from), piece_at(*board, mv.to), mv),
            ),
            None => parsed is Err,
        },
{
    let mut mv: Move = match parse_move_text(movestr) {
        Ok(mv) => mv,
        Err(error) => {
            return Err(error);
        },
    };
    let mover: Option<Piece> = board.piece_on(mv.from);
    let target: Option<Piece> = board.piece_on(mv.to);
    if matches!(mover, Some(Piece::King)) && !matches!(target, Some(Piece::Rook)) {
        mv.to =
        match (mv.from, mv.to) {
            (Square::E1, Square::G1) => Square::H1,
            (Square::E8, Square::G8) => Square::H8,
            (Square::E1, Square::C1) => Square::A1,
            (Square::E8, Square::C8) => Square::A8,
            _ => mv.to,
        };
    }
    Ok(mv)
}

/// Writes a move of the rules engine in standard notation.
pub fn move_to_string(board: &Board, mv: Move) -> (text: String)
    ensures
        text@ == standard_text(piece_at(*board, mv.from), mv),
{
    if matches!(board.piece_on(mv.from), Some(Piece::King)) {
        return match (mv.from, mv.to) {
            (Square::E1, Square::H1) => String::from_str("e1g1"),
            (Square::E8, Square::H8) => String::from_str("e8g8"),
            (Square::E1, Square::A1) => String::from_str("e1c1"),
            (Square::E8, Square::A8) => String::from_str("e8c8"),
            _ => write_move_text(mv),
        };
    }
    write_move_text(mv)
}

} // verus!
