//! The boundary to `cozy_chess`, the rules engine.
//!
//! The plain data types of `cozy_chess` are declared with their definitions,
//! so verified code reads their fields and variants directly. A `Board` is
//! opaque. What the rules engine computes from a board is named by the
//! uninterpreted functions below, and the specifications in this file tie
//! each `cozy_chess` method to its name. Nothing in this file is proved.

use cozy_chess::{
    BitBoard, Board, Color, FenParseError, File, GameStatus, IllegalMoveError, Move,
    MoveParseError, Piece, PieceMoves, Rank, Square,
};
use vstd::prelude::*;

verus! {

/// `cozy_chess::Square`, with its 64 variants.
#[verifier::external_type_specification]
pub struct ExSquare(Square);

/// `cozy_chess::File`, with its eight variants.
#[verifier::external_type_specification]
pub struct ExFile(File);

/// `cozy_chess::Rank`, with its eight variants.
#[verifier::external_type_specification]
pub struct ExRank(Rank);

/// `cozy_chess::Piece`, with its six variants.
#[verifier::external_type_specification]
pub struct ExPiece(Piece);

/// `cozy_chess::Color`, with its two variants.
#[verifier::external_type_specification]
pub struct ExColor(Color);

/// `cozy_chess::BitBoard`, a set of squares: bit `i` of its one field is set
/// when square `i` is in the set.
#[verifier::external_type_specification]
pub struct ExBitBoard(BitBoard);

/// `cozy_chess::Move`, with its fields `from`, `to` and `promotion`.
#[verifier::external_type_specification]
pub struct ExMove(Move);

/// `cozy_chess::PieceMoves`, the moves of one piece: the kind of piece, the
/// square it stands on and the set of squares it can go to.
#[verifier::external_type_specification]
pub struct ExPieceMoves(PieceMoves);

/// `cozy_chess::MoveParseError`, which has no fields.
#[verifier::external_type_specification]
pub struct ExMoveParseError(MoveParseError);

/// `cozy_chess::FenParseError`, with one variant for each part of a FEN that
/// can be wrong.
#[verifier::external_type_specification]
pub struct ExFenParseError(FenParseError);

/// `cozy_chess::IllegalMoveError`, which has no fields.
#[verifier::external_type_specification]
pub struct ExIllegalMoveError(IllegalMoveError);

/// `cozy_chess::GameStatus`, with its three variants.
#[verifier::external_type_specification]
pub struct ExGameStatus(GameStatus);

/// `cozy_chess::Board`. Its fields are private: a board is only ever handed
/// to the rules engine.
#[verifier::external_type_specification]
#[verifier::external_body]
pub struct ExBoard(Board);

/// What `Board::status` reports for a board.
pub uninterp spec fn status_of(board: Board) -> GameStatus;

/// The side that `Board::side_to_move` reports.
pub uninterp spec fn side_to_move_of(board: Board) -> Color;

/// The piece that `Board::piece_on` reports for a square.
pub uninterp spec fn piece_at(board: Board, square: Square) -> Option<Piece>;

/// The squares that `Board::colors` reports for a colour.
pub uninterp spec fn colors_of(board: Board, color: Color) -> BitBoard;

/// The squares that `Board::colored_pieces` reports for a colour and a kind
/// of piece.
pub uninterp spec fn colored_pieces_of(board: Board, color: Color, piece: Piece) -> BitBoard;

/// The file that `Board::en_passant` reports.
pub uninterp spec fn en_passant_of(board: Board) -> Option<File>;

/// The batches of moves that `Board::generate_moves` hands to its listener,
/// in order.
pub uninterp spec fn batches_of(board: Board) -> Seq<PieceMoves>;

/// The moves that the iterator of a batch yields, in order.
pub uninterp spec fn moves_in(batch: PieceMoves) -> Seq<Move>;

/// The moves of the first `count` batches of a board, one batch after the
/// other.
pub open spec fn moves_upto(board: Board, count: nat) -> Seq<Move>
    decreases count,
{
    if count == 0 {
        Seq::empty()
    } else {
        moves_upto(board, (count - 1) as nat) + moves_in(batches_of(board)[count - 1])
    }
}

/// The legal moves of a board, in the order in which `Board::generate_moves`
/// hands them out.
pub open spec fn moves_of(board: Board) -> Seq<Move> {
    moves_upto(board, batches_of(board).len())
}

/// A move is legal on a board when the move generator produces it.
pub open spec fn is_legal_move(board: Board, mv: Move) -> bool {
    moves_of(board).contains(mv)
}

/// The board that `Board::play_unchecked` leaves after a legal move.
pub uninterp spec fn board_after(board: Board, mv: Move) -> Board;

/// The board that a FEN parses to with `Board::from_str`, if it parses.
pub uninterp spec fn board_of_fen(fen: Seq<char>) -> Option<Board>;

/// The FEN of the position in which a game of chess starts.
pub open spec fn start_fen() -> Seq<char> {
    "rnbqkbnr/pppppppp/8/8/8/8/PPPPPPPP/RNBQKBNR w KQkq - 0 1"@
}

/// The square that `Square::new` makes of a file and a rank.
pub uninterp spec fn square_on(file: File, rank: Rank) -> Square;

/// The set that `Square::bitboard` makes of one square.
pub uninterp spec fn square_set(square: Square) -> BitBoard;

/// The number of bits set in a word.
pub open spec fn popcount(bits: u64) -> nat
    decreases bits,
{
    if bits == 0 {
        0
    } else {
        (bits % 2) as nat + popcount(bits / 2)
    }
}

/// The move that the text of a move parses to with `Move::from_str`, if it
/// parses.
pub uninterp spec fn parsed_move(text: Seq<char>) -> Option<Move>;

/// The text that `Move`'s `Display` writes for a move.
pub uninterp spec fn move_text(mv: Move) -> Seq<char>;

/// `Clone::clone` on a board: the copy is the same position.
pub assume_specification[ <Board as Clone>::clone ](board: &Board) -> (copy: Board)
    ensures
        copy == *board,
;

/// `Board::startpos`: the board that the FEN of the start position parses
/// to, as the method's documentation shows.
pub assume_specification[ Board::startpos ]() -> (board: Board)
    ensures
        board_of_fen(start_fen()) == Some(board),
;

/// `Board::from_str`, through `str::parse`: whether a FEN parses, and to
/// which board, is a function of its text.
#[verifier::external_body]
pub(crate) fn parse_fen(fen: &str) -> (parsed: Result<Board, FenParseError>)
    ensures
        match parsed {
            Ok(board) => board_of_fen(fen@) == Some(board),
            Err(_) => board_of_fen(fen@) is None,
        },
{
    fen.parse()
}

/// `Board::status`: the result is a function of the board. The method
/// answers `Ongoing` only after the move generator has handed out a batch,
/// and the generator hands out no batch without a move, so an ongoing game
/// has a legal move.
pub assume_specification[ Board::status ](board: &Board) -> (status: GameStatus)
    ensures
        status == status_of(*board),
        status == GameStatus::Ongoing ==> moves_of(*board).len() > 0,
;

/// `Board::side_to_move`: the result is a function of the board.
pub assume_specification[ Board::side_to_move ](board: &Board) -> (color: Color)
    ensures
        color == side_to_move_of(*board),
;

/// `Board::piece_on`: the result is a function of the board and the square.
pub assume_specification[ Board::piece_on ](board: &Board, square: Square) -> (piece: Option<
    Piece,
>)
    ensures
        piece == piece_at(*board, square),
;

/// `Board::colors`: the result is a function of the board and the colour.
pub assume_specification[ Board::colors ](board: &Board, color: Color) -> (squares: BitBoard)
    ensures
        squares == colors_of(*board, color),
;

/// `Board::colored_pieces`: the result is a function of the board, the
/// colour and the kind of piece.
pub assume_specification[ Board::colored_pieces ](
    board: &Board,
    color: Color,
    piece: Piece,
) -> (squares: BitBoard)
    ensures
        squares == colored_pieces_of(*board, color, piece),
;

/// `Board::en_passant`: the result is a function of the board.
pub assume_specification[ Board::en_passant ](board: &Board) -> (file: Option<File>)
    ensures
        file == en_passant_of(*board),
;

/// `Board::play_unchecked`: the position after the move is a function of the
/// position before and the move. The method may panic on an illegal move,
/// so only legal moves are admitted.
pub assume_specification[ Board::play_unchecked ](board: &mut Board, mv: Move)
    requires
        is_legal_move(*old(board), mv),
    ensures
        *final(board) == board_after(*old(board), mv),
;

/// `Board::try_play`: plays a legal move as `Board::play_unchecked` does, and
/// refuses any other move without touching the board. The method tells a
/// legal move with `Board::is_legal`, which is code of its own beside the
/// move generator; the tests of `cozy_chess` hold the two to agree on every
/// move.
pub assume_specification[ Board::try_play ](board: &mut Board, mv: Move) -> (played: Result<
    (),
    IllegalMoveError,
>)
    ensures
        played is Ok <==> is_legal_move(*old(board), mv),
        played is Ok ==> *final(board) == board_after(*old(board), mv),
        played is Err ==> *final(board) == *old(board),
;

/// `Square::new`: the result is a function of the file and the rank.
pub assume_specification[ Square::new ](file: File, rank: Rank) -> (square: Square)
    ensures
        square == square_on(file, rank),
;

/// `Square::bitboard`: the result is a function of the square.
pub assume_specification[ Square::bitboard ](square: Square) -> (squares: BitBoard)
    ensures
        squares == square_set(square),
;

/// `BitBoard::len`: the number of squares in the set, which the method
/// computes as the number of bits set in the backing word.
pub assume_specification[ BitBoard::len ](squares: BitBoard) -> (count: u32)
    ensures
        count == popcount(squares.0),
;

/// `Move::from_str`, through `str::parse`: whether a text parses, and to
/// which move, is a function of the text.
#[verifier::external_body]
pub(crate) fn parse_move_text(text: &str) -> (parsed: Result<Move, MoveParseError>)
    ensures
        match parsed {
            Ok(mv) => parsed_move(text@) == Some(mv),
            Err(_) => parsed_move(text@) is None,
        },
{
    text.parse()
}

/// `Move`'s `Display`, through `to_string`: the text is a function of the
/// move.
#[verifier::external_body]
pub(crate) fn write_move_text(mv: Move) -> (text: String)
    ensures
        text@ == move_text(mv),
{
    mv.to_string()
}

} // verus!
