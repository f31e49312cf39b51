use crate::chess::move_gen::all_moves;
use crate::chess::perft::{lemma_perft_below_grows, perft_below, perft_nodes, try_perft};
use crate::chess::rules::{board_after, moves_of};
use crate::uci::perft::{depth_argument, parse_depth};
use crate::uci::tokens::words;
use cozy_chess::{Board, Move};
use vstd::prelude::*;

verus! {

/// The perft count of a position, split by its first move.
pub struct SplitReport {
    /// Each legal move with the number of lines that begin with it.
    pub lines: Vec<(Move, u64)>,
    /// The number of all lines.
    pub total: u64,
}

/// The report lists the legal moves of `board` in order, each with the
/// perft count of the position it leads to, one ply less deep, and their
/// sum.
pub open spec fn is_split_of(report: SplitReport, board: Board, depth: nat) -> bool {
    &&& report.lines@.len() == moves_of(board).len()
    &&& forall|i: int|
        0 <= i < report.lines@.len() ==> (#[trigger] report.lines@[i]).0 == moves_of(board)[i]
            && report.lines@[i].1 == perft_nodes(
            board_after(board, moves_of(board)[i]),
            (depth - 1) as nat,
        )
    &&& report.total == perft_nodes(board, depth)
}

/// Handles the arguments of a `split` command: counts, for each legal move
/// of the position, the lines of the asked depth that begin with it.
///
/// There is no report where the depth is missing, is no number or is 0, nor
/// where the count of all lines does not fit a `u64`.
pub fn split(args: &str, board: &Board) -> (report: Option<SplitReport>)
    ensures
        match report {
            Some(report) => depth_argument(words(args@)) matches Some(depth) && depth > 0
                && is_split_of(report, *board, depth as nat),
            None => match depth_argument(words(args@)) {
                Some(depth) => depth == 0 || perft_nodes(*board, depth as nat) > u64::MAX,
                None => true,
            },
        },
{
    let depth: u8 = match parse_depth(args) {
        Some(depth) => depth,
        None => {
            return None;
        },
    };
    if depth == 0 {
        return None;
    }
    let moves: Vec<Move> = all_moves(board);
    let mut lines: Vec<(Move, u64)> = Vec::new();
    let mut total: u64 = 0;
    let mut i: usize = 0;
    while i < moves.len()
        invariant
            moves@ == moves_of(*board),
            depth > 0,
            i <= moves.len(),
            lines@.len() == i,
            depth_argument(words(args@)) == Some(depth),
            forall|k: int|
                0 <= k < i ==> (#[trigger] lines@[k]).0 == moves_of(*board)[k] && lines@[k].1
                    == perft_nodes(board_after(*board, moves_of(*board)[k]), (depth - 1) as nat),
            total == perft_below(*board, depth as nat, i as nat),
        decreases moves.len() - i,
    {
        let mv: Move = moves[i];
        assert(moves_of(*board)[i as int] == mv);
        let mut child = board.clone();
        child.play_unchecked(mv);
        proof {
            lemma_perft_below_grows(*board, depth as nat, (i + 1) as nat, moves@.len());
        }
        let nodes: u64 = match try_perft(&child, depth - 1) {
            Some(nodes) => nodes,
            None => {
                return None;
            },
        };
        total = match total.checked_add(nodes) {
            Some(sum) => sum,
            None => {
                return None;
            },
        };
        lines.push((mv, nodes));
        i += 1;
    }
    Some(SplitReport { lines, total })
}

} // verus!
