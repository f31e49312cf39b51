use crate::chess::parse_move::{engine_move, parse_move};
use crate::chess::rules::{
    board_after, board_of_fen, is_legal_move, parse_fen, parsed_move, piece_at, start_fen,
};
use crate::uci::tokens::{same_text, split_words, texts, words};
use cozy_chess::Board;
use vstd::prelude::*;
use vstd::string::StringExecFns;

verus! {

/// Why a `position` command could not be carried out.
#[derive(Debug, PartialEq, Eq, Clone, Copy)]
pub enum PositionError {
    /// The text after `fen` is not the FEN of a position.
    InvalidFen,
    /// A move of the list is not legal where it is to be played.
    IllegalMove,
}

/// Why the moves of a `position` command were not played to the end.
pub enum Halt {
    /// A word is not the text of a move: it and what follows is dropped.
    Unreadable,
    /// A move is not legal on the board it is to be played on.
    Illegal,
}

/// A board with the moves played so far, and why playing halted, if it did.
pub struct Played {
    pub board: Board,
    pub halted: Option<Halt>,
}

/// What `str::trim` leaves of a text.
pub uninterp spec fn trimmed(text: Seq<char>) -> Seq<char>;

/// `str::trim`: the text without the white space at its two ends. What is
/// left is a function of the text.
#[verifier::external_body]
fn trim(text: &str) -> (inner: &str)
    ensures
        inner@ == trimmed(text@),
{
    text.trim()
}

/// The words `from..to` of a list, each followed by a space.
pub open spec fn spaced(list: Seq<Seq<char>>, from: int, to: int) -> Seq<char>
    decreases to - from,
{
    if to <= from {
        Seq::empty()
    } else {
        spaced(list, from, to - 1) + list[to - 1] + seq![' ']
    }
}

/// The position of the first word `moves` at or after `from`, or the length
/// of the list where there is none.
pub open spec fn moves_keyword(list: Seq<Seq<char>>, from: int) -> int
    decreases list.len() - from,
{
    if from >= list.len() {
        list.len() as int
    } else if list[from] == "moves"@ {
        from
    } else {
        moves_keyword(list, from + 1)
    }
}

/// The board that the first words of a `position` command set up, or `None`
/// for a FEN that does not parse, and where the list of moves begins. After
/// `startpos` one word is passed over. After `fen` the words up to `moves`
/// make the FEN. Any other first word leaves the board as it is.
pub open spec fn set_up(list: Seq<Seq<char>>, board: Board) -> (Option<Board>, int) {
    if list.len() > 0 && list[0] == "startpos"@ {
        (board_of_fen(start_fen()), 2)
    } else if list.len() > 0 && list[0] == "fen"@ {
        let end = moves_keyword(list, 1);
        (board_of_fen(trimmed(spaced(list, 1, end))), end + 1)
    } else {
        (Some(board), 1)
    }
}

/// Plays one word of the list of moves: the move it writes, read in
/// standard notation, where that move is legal.
pub open spec fn play_word(board: Board, word: Seq<char>) -> Played {
    match parsed_move(word) {
        None => Played { board, halted: Some(Halt::Unreadable) },
        Some(read) => {
            let mv = engine_move(piece_at(board, read.from), piece_at(board, read.to), read);
            if is_legal_move(board, mv) {
                Played { board: board_after(board, mv), halted: None }
            } else {
                Played { board, halted: Some(Halt::Illegal) }
            }
        },
    }
}

/// Plays the words `from..upto` of a list as moves, one after the other,
/// until one of them halts the playing.
pub open spec fn play_words(board: Board, list: Seq<Seq<char>>, from: int, upto: int) -> Played
    decreases upto - from,
{
    if upto <= from {
        Played { board, halted: None }
    } else {
        let prev = play_words(board, list, from, upto - 1);
        if prev.halted is Some {
            prev
        } else {
            play_word(prev.board, list[upto - 1])
        }
    }
}

/// Once playing has halted, later words change nothing.
proof fn lemma_halt_ends_play(board: Board, list: Seq<Seq<char>>, from: int, upto: int, later: int)
    requires
        from <= upto <= later,
        play_words(board, list, from, upto).halted is Some,
    ensures
        play_words(board, list, from, later) == play_words(board, list, from, upto),
    decreases later - upto,
{
    if upto < later {
        lemma_halt_ends_play(board, list, from, upto, later - 1);
    }
}

/// Handles the arguments of a `position` command: sets the board up, then
/// plays the moves listed.
///
/// A FEN that does not parse leaves the board untouched. A word that is not
/// a move ends the list: it and the words after it are dropped. A move that
/// is not legal ends the list too, with the board as the moves before it
/// left it, and is reported.
pub fn position(args: &str, board: &mut Board) -> (done: Result<(), PositionError>)
    ensures
        match set_up(words(args@), *old(board)) {
            (None, _) => {
                &&& done == Err::<(), PositionError>(PositionError::InvalidFen)
                &&& *final(board) == *old(board)
            },
            (Some(start), from) => {
                let played = play_words(
                    start,
                    words(args@),
                    from,
                    words(args@).len() as int,
                );
                &&& *final(board) == played.board
                &&& done == if played.halted == Some(Halt::Illegal) {
                    Err::<(), PositionError>(PositionError::IllegalMove)
                } else {
                    Ok::<(), PositionError>(())
                }
            },
        },
{
    let list: Vec<String> = split_words(args);
    let ghost all = words(args@);
    assert forall|k: int| 0 <= k < list.len() implies (#[trigger] list@[k])@ == all[k] by {
        assert(texts(list@)[k] == list@[k]@);
    }
    let mut next: usize = 1;
    if list.len() > 0 && same_text(list[0].as_str(), "startpos") {
        *board = Board::startpos();
        next = 2;
    } else if list.len() > 0 && same_text(list[0].as_str(), "fen") {
        let mut fen = String::new();
        let mut end: usize = 1;
        while end < list.len() && !same_text(list[end].as_str(), "moves")
            invariant
                1 <= end <= list.len(),
                all.len() == list.len(),
                forall|k: int| 0 <= k < list.len() ==> (#[trigger] list@[k])@ == all[k],
                moves_keyword(all, end as int) == moves_keyword(all, 1),
                fen@ == spaced(all, 1, end as int),
            decreases list.len() - end,
        {
            fen.append(list[end].as_str());
            proof {
                reveal_strlit(" ");
                assert(" "@ =~= seq![' ']);
            }
            fen.append(" ");
            end += 1;
        }
        match parse_fen(trim(fen.as_str())) {
            Ok(parsed) => {
                *board = parsed;
            },
            Err(_) => {
                return Err(PositionError::InvalidFen);
            },
        }
        next = if end < list.len() {
            end + 1
        } else {
            end
        };
    }
    let ghost start = *board;
    let ghost from = set_up(all, *old(board)).1;
    assert(set_up(all, *old(board)).0 == Some(start));
    assert(next == from || (next == list.len() && from > list.len()));
    while next < list.len()
        invariant
            all.len() == list.len(),
            forall|k: int| 0 <= k < list.len() ==> (#[trigger] list@[k])@ == all[k],
            all == words(args@),
            set_up(all, *old(board)) == (Some(start), from),
            next == from || next <= list.len(),
            from <= next || next >= list.len(),
            play_words(start, all, from, next as int) == (Played { board: *board, halted: None }),
        decreases list.len() - next,
    {
        match parse_move(board, list[next].as_str()) {
            Ok(mv) => {
                if board.try_play(mv).is_err() {
                    proof {
                        lemma_halt_ends_play(start, all, from, next + 1, list.len() as int);
                    }
                    return Err(PositionError::IllegalMove);
                }
            },
            Err(_) => {
                proof {
                    lemma_halt_ends_play(start, all, from, next + 1, list.len() as int);
                }
                return Ok(());
            },
        }
        next += 1;
    }
    Ok(())
}

} // verus!
