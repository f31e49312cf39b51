use crate::chess::constants::MAX_PLY;
use crate::chess::parse_move::{move_to_string, standard_text};
use crate::chess::rules::{board_after, is_legal_move, move_text, piece_at, write_move_text};
use cozy_chess::{Board, Move};
use vstd::prelude::*;
use vstd::string::StringExecFns;

verus! {

/// A line of moves is legal from a board when its first move is legal there
/// and the rest is a legal line from the board that the first move leaves.
pub open spec fn is_legal_line(board: Board, line: Seq<Move>) -> bool
    decreases line.len(),
{
    line.len() == 0 || (is_legal_move(board, line[0]) && is_legal_line(
        board_after(board, line[0]),
        line.drop_first(),
    ))
}

/// The board on which the next move of a line is written: the board after
/// the move, or the same board where the move cannot be played.
pub open spec fn board_past(board: Board, mv: Move) -> Board {
    if is_legal_move(board, mv) {
        board_after(board, mv)
    } else {
        board
    }
}

/// The board on which move `count` of a line is written.
pub open spec fn board_along(board: Board, line: Seq<Move>, count: nat) -> Board
    decreases count,
{
    if count == 0 {
        board
    } else {
        board_past(board_along(board, line, (count - 1) as nat), line[count - 1])
    }
}

/// A move written for a board: as the rules engine writes it, which is the
/// notation of Chess960, or else in standard notation.
pub open spec fn notation(board: Board, mv: Move, frc: bool) -> Seq<char> {
    if frc {
        move_text(mv)
    } else {
        standard_text(piece_at(board, mv.from), mv)
    }
}

/// The first `count` moves of a line played from `board`, each written for
/// the board it is played on, with one space between two moves.
pub open spec fn line_text(board: Board, line: Seq<Move>, frc: bool, count: nat) -> Seq<char>
    decreases count,
{
    if count == 0 {
        Seq::empty()
    } else {
        let mv = notation(board_along(board, line, (count - 1) as nat), line[count - 1], frc);
        if count == 1 {
            mv
        } else {
            line_text(board, line, frc, (count - 1) as nat) + seq![' '] + mv
        }
    }
}

/// The principal variation found below one node: the first `length` entries
/// of `table`, best move first.
#[derive(Clone)]
pub struct PVTable {
    /// The number of moves in the line.
    pub length: usize,
    /// The moves, in one entry for each ply that the search can reach.
    pub table: [Option<Move>; 128],
}

impl View for PVTable {
    type V = Seq<Move>;

    /// The stored line.
    open spec fn view(&self) -> Seq<Move> {
        Seq::new(self.length as nat, |i: int| self.table@[i].unwrap())
    }
}

impl PVTable {
    /// The line fits the table and each of its entries holds a move.
    pub open spec fn wf(&self) -> bool {
        &&& self.length <= MAX_PLY
        &&& forall|i: int| 0 <= i < self.length ==> (#[trigger] self.table@[i]) is Some
    }

    /// An empty line.
    pub fn new() -> (pv: Self)
        ensures
            pv.wf(),
            pv@ == Seq::<Move>::empty(),
            forall|i: int| 0 <= i < MAX_PLY ==> (#[trigger] pv.table@[i]) is None,
    {
        PVTable { length: 0, table: [None;128] }
    }

    /// Makes this line `mv` followed by the line of `old`.
    pub fn store(&mut self, mv: Move, old: &Self)
        requires
            old.wf(),
            old.length < MAX_PLY,
        ensures
            final(self).wf(),
            final(self)@ == seq![mv] + old@,
    {
        self.table[0] = Some(mv);
        let mut i: usize = 0;
        while i < old.length
            invariant
                old.wf(),
                old.length < MAX_PLY,
                i <= old.length,
                self.table@[0] == Some(mv),
                forall|j: int| 1 <= j <= i ==> (#[trigger] self.table@[j]) == old.table@[j - 1],
            decreases old.length - i,
        {
            self.table[i + 1] = old.table[i];
            i += 1;
        }
        self.length = old.length + 1;
        assert(self@ =~= seq![mv] + old@);
    }

    /// The number of moves in the stored line.
    pub fn len(&self) -> (length: usize)
        ensures
            length == self@.len(),
    {
        self.length
    }

    /// The moves of the stored line, best move first.
    pub fn line(&self) -> (line: Vec<Move>)
        requires
            self.wf(),
        ensures
            line@ == self@,
    {
        let mut line: Vec<Move> = Vec::new();
        let mut i: usize = 0;
        while i < self.length
            invariant
                self.wf(),
                i <= self.length,
                line@ == self@.subrange(0, i as int),
            decreases self.length - i,
        {
            assert(self.table@[i as int] is Some);
            line.push(self.table[i].unwrap());
            assert(line@ =~= self@.subrange(0, i + 1));
            i += 1;
        }
        assert(line@ =~= self@);
        line
    }

    /// The entries of the stored line.
    pub fn moves(&self) -> (line: &[Option<Move>])
        requires
            self.length <= MAX_PLY,
        ensures
            line@ == self.table@.subrange(0, self.length as int),
    {
        vstd::slice::slice_subrange(self.table.as_slice(), 0, self.length)
    }

    /// The line as text, from the position it starts in: its moves separated
    /// by single spaces, each in the notation of the board it is played on.
    pub fn to_string(&self, board: &Board, frc: bool) -> (text: String)
        requires
            self.wf(),
        ensures
            text@ == line_text(*board, self@, frc, self@.len()),
    {
        let mut pv_string = String::new();
        let mut new_board = board.clone();
        let mut i: usize = 0;
        while i < self.length
            invariant
                self.wf(),
                i <= self.length,
                new_board == board_along(*board, self@, i as nat),
                pv_string@ == line_text(*board, self@, frc, i as nat),
            decreases self.length - i,
        {
            assert(self.table@[i as int] is Some);
            let mv: Move = self.table[i].unwrap();
            assert(self@[i as int] == mv);
            let mv_str: String = if frc {
                write_move_text(mv)
            } else {
                move_to_string(&new_board, mv)
            };
            if i > 0 {
                proof {
                    reveal_strlit(" ");
                    assert(" "@ =~= seq![' ']);
                }
                pv_string.append(" ");
            }
            pv_string.append(mv_str.as_str());
            let _ = new_board.try_play(mv);
            i += 1;
        }
        pv_string
    }

    /// Empties the line.
    pub fn clear(&mut self)
        ensures
            final(self).wf(),
            final(self)@ == Seq::<Move>::empty(),
            final(self).table == old(self).table,
    {
        self.length = 0;
    }
}

} // verus!
