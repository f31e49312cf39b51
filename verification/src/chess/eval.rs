use crate::chess::rules::{colored_pieces_of, popcount, side_to_move_of};
use cozy_chess::{Board, Color, Piece};
use vstd::arithmetic::power2::{lemma2_to64, lemma2_to64_rest, lemma_pow2_unfold, pow2};
use vstd::prelude::*;

verus! {

/// No static evaluation leaves this range, which keeps evaluations apart
/// from mate scores.
pub const EVAL_LIMIT: i16 = 31_000;

/// Material values, indexed by `piece_type`.
pub const PIECE_VALUES: [i16; 6] = [100, 320, 330, 500, 900, 0];

/// The material value of a kind of piece, in centipawns.
pub open spec fn piece_value(piece: Piece) -> int {
    match piece {
        Piece::Pawn => 100,
        Piece::Knight => 320,
        Piece::Bishop => 330,
        Piece::Rook => 500,
        Piece::Queen => 900,
        Piece::King => 0,
    }
}

/// How many pieces of one colour and kind stand on the board.
pub open spec fn piece_count(board: Board, color: Color, piece: Piece) -> int {
    popcount(colored_pieces_of(board, color, piece).0) as int
}

/// What white has more than black of one kind of piece, in centipawns.
pub open spec fn material_of(board: Board, piece: Piece) -> int {
    piece_value(piece) * (piece_count(board, Color::White, piece) - piece_count(
        board,
        Color::Black,
        piece,
    ))
}

/// White's material minus black's, in centipawns.
pub open spec fn material_balance(board: Board) -> int {
    material_of(board, Piece::Pawn) + material_of(board, Piece::Knight) + material_of(
        board,
        Piece::Bishop,
    ) + material_of(board, Piece::Rook) + material_of(board, Piece::Queen) + material_of(
        board,
        Piece::King,
    )
}

/// A value brought into `[-limit, limit]`.
pub open spec fn clamp_score(value: int, limit: int) -> int {
    if value > limit {
        limit
    } else if value < -limit {
        -limit
    } else {
        value
    }
}

/// The static evaluation of a position: the material balance seen from the
/// side to move, kept within `EVAL_LIMIT`.
pub open spec fn eval_score(board: Board) -> int {
    match side_to_move_of(board) {
        Color::White => clamp_score(material_balance(board), EVAL_LIMIT as int),
        Color::Black => clamp_score(-material_balance(board), EVAL_LIMIT as int),
    }
}

/// A word below `2^width` has at most `width` bits set.
proof fn lemma_popcount_width(bits: u64, width: nat)
    requires
        (bits as nat) < pow2(width),
    ensures
        popcount(bits) <= width,
    decreases bits,
{
    if bits != 0 {
        if width == 0 {
            lemma2_to64();
        } else {
            lemma_pow2_unfold(width);
            lemma_popcount_width(bits / 2, (width - 1) as nat);
        }
    }
}

/// No word has more than 64 bits set.
pub proof fn lemma_popcount_bound(bits: u64)
    ensures
        popcount(bits) <= 64,
{
    lemma2_to64_rest();
    lemma_popcount_width(bits, 64);
}

/// The index of a kind of piece in `PIECE_VALUES`.
fn piece_type(piece: Piece) -> (index: usize)
    ensures
        index < 6,
        PIECE_VALUES[index as int] == piece_value(piece),
{
    match piece {
        Piece::Pawn => 0,
        Piece::Knight => 1,
        Piece::Bishop => 2,
        Piece::Rook => 3,
        Piece::Queen => 4,
        Piece::King => 5,
    }
}

/// White's surplus of one kind of piece, in centipawns.
fn material(board: &Board, piece: Piece) -> (surplus: i32)
    ensures
        surplus == material_of(*board, piece),
        -57_600 <= surplus <= 57_600,
{
    let white: u32 = board.colored_pieces(Color::White, piece).len();
    let black: u32 = board.colored_pieces(Color::Black, piece).len();
    proof {
        lemma_popcount_bound(colored_pieces_of(*board, Color::White, piece).0);
        lemma_popcount_bound(colored_pieces_of(*board, Color::Black, piece).0);
    }
    let value: i32 = PIECE_VALUES[piece_type(piece)] as i32;
    let surplus: i32 = white as i32 - black as i32;
    assert(-57_600 <= value * surplus <= 57_600) by (nonlinear_arith)
        requires
            0 <= value <= 900,
            -64 <= surplus <= 64,
    ;
    value * surplus
}

/// Scores a position by material, from the point of view of the side to
/// move.
#[must_use]
pub fn eval(board: &Board) -> (score: i16)
    ensures
        score == eval_score(*board),
        -EVAL_LIMIT <= score <= EVAL_LIMIT,
{
    let balance: i32 = material(board, Piece::Pawn) + material(board, Piece::Knight) + material(
        board,
        Piece::Bishop,
    ) + material(board, Piece::Rook) + material(board, Piece::Queen) + material(
        board,
        Piece::King,
    );
    let relative: i32 = match board.side_to_move() {
        Color::White => balance,
        Color::Black => -balance,
    };
    if relative > EVAL_LIMIT as i32 {
        EVAL_LIMIT
    } else if relative < -(EVAL_LIMIT as i32) {
        -EVAL_LIMIT
    } else {
        relative as i16
    }
}

} // verus!
