use crate::chess::move_gen::all_moves;
use crate::chess::rules::{board_after, moves_of};
use cozy_chess::{Board, Move};
use vstd::pervasive::unreached;
use vstd::prelude::*;

verus! {

/// The number of lines of `depth` legal moves that start on a board.
pub open spec fn perft_nodes(board: Board, depth: nat) -> nat
    decreases depth, 1nat, 0nat,
{
    if depth == 0 {
        1
    } else {
        perft_below(board, depth, moves_of(board).len())
    }
}

/// The lines of `depth` legal moves that begin with one of the first `count`
/// moves of a board.
pub open spec fn perft_below(board: Board, depth: nat, count: nat) -> nat
    decreases depth, 0nat, count,
{
    if count == 0 || depth == 0 {
        0
    } else {
        perft_below(board, depth, (count - 1) as nat) + perft_nodes(
            board_after(board, moves_of(board)[count - 1]),
            (depth - 1) as nat,
        )
    }
}

/// More first moves give at least as many lines.
pub proof fn lemma_perft_below_grows(board: Board, depth: nat, count: nat, later: nat)
    requires
        count <= later,
    ensures
        perft_below(board, depth, count) <= perft_below(board, depth, later),
    decreases later,
{
    if count < later && depth > 0 {
        lemma_perft_below_grows(board, depth, count, (later - 1) as nat);
    }
}

/// One ply deep, each first move is one line.
proof fn lemma_perft_below_one(board: Board, count: nat)
    ensures
        perft_below(board, 1, count) == count,
    decreases count,
{
    if count > 0 {
        lemma_perft_below_one(board, (count - 1) as nat);
        assert(perft_nodes(board_after(board, moves_of(board)[count - 1]), 0) == 1);
    }
}

/// Counts the lines of `depth` legal moves from a board, or returns `None`
/// where there are more than a `u64` holds.
pub fn try_perft(board: &Board, depth: u8) -> (nodes: Option<u64>)
    ensures
        match nodes {
            Some(count) => count == perft_nodes(*board, depth as nat),
            None => perft_nodes(*board, depth as nat) > u64::MAX,
        },
    decreases depth,
{
    if depth == 0 {
        return Some(1);
    }
    let moves: Vec<Move> = all_moves(board);
    if depth == 1 {
        proof {
            lemma_perft_below_one(*board, moves@.len());
        }
        return Some(moves.len() as u64);
    }
    let mut nodes: u64 = 0;
    let mut i: usize = 0;
    while i < moves.len()
        invariant
            moves@ == moves_of(*board),
            depth > 1,
            i <= moves.len(),
            nodes == perft_below(*board, depth as nat, i as nat),
        decreases moves.len() - i,
    {
        let mv: Move = moves[i];
        assert(moves_of(*board)[i as int] == mv);
        let mut child = board.clone();
        child.play_unchecked(mv);
        proof {
            lemma_perft_below_grows(*board, depth as nat, (i + 1) as nat, moves@.len());
        }
        let below: u64 = match try_perft(&child, depth - 1) {
            Some(below) => below,
            None => {
                return None;
            },
        };
        nodes = match nodes.checked_add(below) {
            Some(sum) => sum,
            None => {
                return None;
            },
        };
        i += 1;
    }
    Some(nodes)
}

/// Counts the lines of `depth` legal moves from a board.
pub fn perft(board: &Board, depth: u8) -> (nodes: u64)
    requires
        perft_nodes(*board, depth as nat) <= u64::MAX,
    ensures
        nodes == perft_nodes(*board, depth as nat),
{
    match try_perft(board, depth) {
        Some(nodes) => nodes,
        None => unreached(),
    }
}

} // verus!
