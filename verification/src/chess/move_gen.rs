use crate::chess::rules::{
    batches_of, colors_of, en_passant_of, moves_in, moves_of, moves_upto, side_to_move_of,
    square_on, square_set,
};
use cozy_chess::{BitBoard, Board, Color, Move, Piece, PieceMoves, Rank, Square};
use vstd::prelude::*;

verus! {

/// What the listener of the move generator does with a batch: it keeps the
/// batch and asks for the next one.
fn keep_batch(batches: &mut Vec<PieceMoves>, batch: PieceMoves) -> (abort: bool)
    ensures
        final(batches)@ == old(batches)@.push(batch),
        !abort,
{
    batches.push(batch);
    false
}

/// The batches of legal moves of a position, one for each piece that can
/// move, in the order of the move generator.
///
/// This calls `Board::generate_moves` with `keep_batch` as its listener. The
/// contract names the list that the listener is left with `batches_of`; it
/// is not proved.
#[verifier::external_body]
fn piece_moves(board: &Board) -> (batches: Vec<PieceMoves>)
    ensures
        batches@ == batches_of(*board),
{
    let mut batches: Vec<PieceMoves> = Vec::new();
    board.generate_moves(|moves| keep_batch(&mut batches, moves));
    batches
}

/// Appends the moves of a batch, as the batch's own iterator yields them.
/// The contract names them `moves_in`; it is not proved.
#[verifier::external_body]
fn extend_with(list: &mut Vec<Move>, batch: PieceMoves)
    ensures
        final(list)@ == old(list)@ + moves_in(batch),
{
    list.extend(batch);
}

/// All legal moves of a position, in the order of the move generator.
pub fn all_moves(board: &Board) -> (moves: Vec<Move>)
    ensures
        moves@ == moves_of(*board),
{
    let mut move_list: Vec<Move> = Vec::new();
    let batches: Vec<PieceMoves> = piece_moves(board);
    let mut i: usize = 0;
    while i < batches.len()
        invariant
            batches@ == batches_of(*board),
            i <= batches.len(),
            move_list@ == moves_upto(*board, i as nat),
        decreases batches.len() - i,
    {
        extend_with(&mut move_list, batches[i]);
        i += 1;
    }
    move_list
}

/// The square on which a pawn of the side to move captures en passant.
pub open spec fn en_passant_square(board: Board) -> Option<Square> {
    match en_passant_of(board) {
        Some(file) => Some(
            match side_to_move_of(board) {
                Color::White => square_on(file, Rank::Sixth),
                Color::Black => square_on(file, Rank::Third),
            },
        ),
        None => None,
    }
}

/// The squares on which a kind of piece captures: those that the other side
/// stands on and, for a pawn, the en passant square.
pub open spec fn capture_squares(board: Board, piece: Piece) -> u64 {
    let enemy = match side_to_move_of(board) {
        Color::White => colors_of(board, Color::Black).0,
        Color::Black => colors_of(board, Color::White).0,
    };
    match (en_passant_square(board), piece) {
        (Some(square), Piece::Pawn) => enemy | square_set(square).0,
        _ => enemy,
    }
}

/// A batch of moves cut down to its captures.
pub open spec fn captures_in(board: Board, batch: PieceMoves) -> PieceMoves {
    PieceMoves {
        piece: batch.piece,
        from: batch.from,
        to: BitBoard(batch.to.0 & capture_squares(board, batch.piece)),
    }
}

/// The captures among the first `count` batches of a position.
pub open spec fn captures_of(board: Board, count: nat) -> Seq<Move>
    decreases count,
{
    if count == 0 {
        Seq::empty()
    } else {
        captures_of(board, (count - 1) as nat) + moves_in(
            captures_in(board, batches_of(board)[count - 1]),
        )
    }
}

/// The legal moves of a position that capture, en passant among them, in
/// the order of the move generator.
pub fn capture_moves(board: &Board) -> (captures: Vec<Move>)
    ensures
        captures@ == captures_of(*board, batches_of(*board).len()),
{
    let enemy_pieces: BitBoard = match board.side_to_move() {
        Color::White => board.colors(Color::Black),
        Color::Black => board.colors(Color::White),
    };
    let mut captures_list: Vec<Move> = Vec::new();

    let ep_square: Option<Square> = match board.en_passant() {
        Some(ep) => match board.side_to_move() {
            // En passant is only possible on the 6th rank for white
            Color::White => Some(Square::new(ep, Rank::Sixth)),
            // Likewise but on the 3rd rank for black
            Color::Black => Some(Square::new(ep, Rank::Third)),
        },
        None => None,
    };

    let batches: Vec<PieceMoves> = piece_moves(board);
    let mut i: usize = 0;
    while i < batches.len()
        invariant
            batches@ == batches_of(*board),
            i <= batches.len(),
            ep_square == en_passant_square(*board),
            forall|piece: Piece|
                #![trigger capture_squares(*board, piece)]
                capture_squares(*board, piece) == match (ep_square, piece) {
                    (Some(square), Piece::Pawn) => enemy_pieces.0 | square_set(square).0,
                    _ => enemy_pieces.0,
                },
            captures_list@ == captures_of(*board, i as nat),
        decreases batches.len() - i,
    {
        let mut moves: PieceMoves = batches[i];
        let mut permissible: u64 = enemy_pieces.0;
        match ep_square {
            Some(epsq) => {
                if matches!(moves.piece, Piece::Pawn) {
                    permissible = permissible | epsq.bitboard().0;
                }
            },
            None => {},
        }
        assert(permissible == capture_squares(*board, moves.piece));
        moves.to = BitBoard(moves.to.0 & permissible);
        extend_with(&mut captures_list, moves);
        i += 1;
    }
    captures_list
}

} // verus!
