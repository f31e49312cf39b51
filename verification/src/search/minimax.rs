//! Negamax without pruning, and what alpha-beta search has to do with it.

use crate::chess::constants::{mated_in_score, INF, MAX_PLY, NEG_INF};
use crate::chess::eval::eval_score;
use crate::chess::rules::{board_after, moves_of, status_of};
use crate::search::search::{alpha_beta, scan_moves};
use cozy_chess::{Board, GameStatus, Move};
use vstd::prelude::*;

verus! {

/// The value of a position for the side to move when every line is played
/// out to `depth`: the static evaluation at the horizon, the mate or draw
/// score where the game is over, and otherwise the best of the replies.
pub open spec fn negamax(board: Board, depth: nat, ply: nat) -> int
    decreases depth, 1nat, 0nat,
{
    if ply >= MAX_PLY || depth == 0 {
        eval_score(board)
    } else {
        match status_of(board) {
            GameStatus::Won => mated_in_score(ply as int),
            GameStatus::Drawn => 0,
            GameStatus::Ongoing => best_reply(board, depth, ply, moves_of(board).len()),
        }
    }
}

/// The best that the mover gets from the first `count` moves of a position,
/// or `NEG_INF` for no move.
pub open spec fn best_reply(board: Board, depth: nat, ply: nat, count: nat) -> int
    decreases depth, 0nat, count,
{
    if count == 0 || depth == 0 {
        NEG_INF as int
    } else {
        let others = best_reply(board, depth, ply, (count - 1) as nat);
        let this = -negamax(
            board_after(board, moves_of(board)[count - 1]),
            (depth - 1) as nat,
            ply + 1,
        );
        if this > others {
            this
        } else {
            others
        }
    }
}

/// How a score that alpha-beta returns for a window bounds the true value:
/// at or below `alpha` it is an upper bound, at or above `beta` a lower
/// bound, and strictly inside the window it is the value itself.
pub open spec fn bounds_value(score: int, alpha: int, beta: int, value: int) -> bool {
    &&& score <= alpha ==> value <= score
    &&& alpha < score < beta ==> value == score
    &&& score >= beta ==> value >= score
}

/// Alpha-beta search is sound: the score it gives for a window bounds the
/// negamax value of the position as `bounds_value` says. Pruning never
/// changes a score that falls inside the window.
pub proof fn lemma_alpha_beta_bounds_negamax(
    board: Board,
    alpha: int,
    beta: int,
    depth: nat,
    ply: nat,
)
    requires
        NEG_INF <= alpha < beta <= INF,
    ensures
        bounds_value(
            alpha_beta(board, alpha, beta, depth, ply).score,
            alpha,
            beta,
            negamax(board, depth, ply),
        ),
    decreases depth, 1nat, 0nat,
{
    if ply < MAX_PLY && depth > 0 && status_of(board) == GameStatus::Ongoing {
        lemma_scan_bounds_best_reply(board, alpha, beta, depth, ply, moves_of(board).len());
    }
}

/// The state of a node's loop after `count` moves, held against the best
/// reply among those moves.
proof fn lemma_scan_bounds_best_reply(
    board: Board,
    alpha: int,
    beta: int,
    depth: nat,
    ply: nat,
    count: nat,
)
    requires
        NEG_INF <= alpha < beta <= INF,
        depth > 0,
    ensures
        ({
            let scan = scan_moves(board, alpha, beta, depth, ply, count);
            let best = best_reply(board, depth, ply, count);
            &&& scan.alpha == if scan.best > alpha {
                scan.best
            } else {
                alpha
            }
            &&& !scan.cut ==> scan.best < beta
            &&& !scan.cut && scan.best <= alpha ==> best <= scan.best
            &&& !scan.cut && scan.best > alpha ==> best == scan.best
            &&& scan.cut ==> scan.best >= beta && best >= scan.best
        }),
    decreases depth, 0nat, count,
{
    if count > 0 {
        lemma_scan_bounds_best_reply(board, alpha, beta, depth, ply, (count - 1) as nat);
        let prev = scan_moves(board, alpha, beta, depth, ply, (count - 1) as nat);
        if !prev.cut {
            lemma_alpha_beta_bounds_negamax(
                board_after(board, moves_of(board)[count - 1]),
                -beta,
                -prev.alpha,
                (depth - 1) as nat,
                ply + 1,
            );
        }
    }
}

/// The search goes no deeper from a position: the horizon or the last ply is
/// reached, or the game is over.
pub open spec fn is_horizon(board: Board, depth: nat, ply: nat) -> bool {
    ply >= MAX_PLY || depth == 0 || status_of(board) != GameStatus::Ongoing
}

/// A line played from a position ends where the search goes no deeper.
pub open spec fn ends_at_horizon(board: Board, line: Seq<Move>, depth: nat, ply: nat) -> bool
    decreases line.len(),
{
    if line.len() == 0 {
        is_horizon(board, depth, ply)
    } else {
        depth > 0 && ends_at_horizon(
            board_after(board, line[0]),
            line.drop_first(),
            (depth - 1) as nat,
            ply + 1,
        )
    }
}

/// What a line is worth to the side to move at its start: the negamax value
/// of the position at its end, with the sign turned at each move.
pub open spec fn line_value(board: Board, line: Seq<Move>, depth: nat, ply: nat) -> int
    decreases line.len(),
{
    if line.len() == 0 {
        negamax(board, depth, ply)
    } else {
        -line_value(
            board_after(board, line[0]),
            line.drop_first(),
            (depth - 1) as nat,
            ply + 1,
        )
    }
}

/// The line that alpha-beta search returns with a score strictly inside its
/// window is a principal variation: it runs to where the search goes no
/// deeper, and the position at its end is worth the score. With
/// `lemma_alpha_beta_is_negamax` every move of the line is a best move.
pub proof fn lemma_line_is_principal(board: Board, alpha: int, beta: int, depth: nat, ply: nat)
    requires
        NEG_INF <= alpha,
        beta <= INF,
        alpha < alpha_beta(board, alpha, beta, depth, ply).score < beta,
    ensures
        ({
            let outcome = alpha_beta(board, alpha, beta, depth, ply);
            &&& ends_at_horizon(board, outcome.line, depth, ply)
            &&& line_value(board, outcome.line, depth, ply) == outcome.score
        }),
    decreases depth, 1nat, 0nat,
{
    lemma_alpha_beta_bounds_negamax(board, alpha, beta, depth, ply);
    if ply < MAX_PLY && depth > 0 && status_of(board) == GameStatus::Ongoing {
        lemma_scan_bounds_best_reply(board, alpha, beta, depth, ply, moves_of(board).len());
        lemma_scan_line_is_principal(board, alpha, beta, depth, ply, moves_of(board).len());
    }
}

/// The line of a node's loop, once a move has raised `alpha` without
/// reaching `beta`, is a principal variation of the moves tried so far.
proof fn lemma_scan_line_is_principal(
    board: Board,
    alpha: int,
    beta: int,
    depth: nat,
    ply: nat,
    count: nat,
)
    requires
        NEG_INF <= alpha < beta <= INF,
        depth > 0,
    ensures
        ({
            let scan = scan_moves(board, alpha, beta, depth, ply, count);
            &&& scan.best <= alpha ==> scan.line.len() == 0
            &&& !scan.cut && scan.best > alpha ==> {
                &&& scan.line.len() > 0
                &&& ends_at_horizon(board, scan.line, depth, ply)
                &&& line_value(board, scan.line, depth, ply) == scan.best
            }
        }),
    decreases depth, 0nat, count,
{
    if count > 0 {
        lemma_scan_line_is_principal(board, alpha, beta, depth, ply, (count - 1) as nat);
        lemma_scan_bounds_best_reply(board, alpha, beta, depth, ply, (count - 1) as nat);
        let prev = scan_moves(board, alpha, beta, depth, ply, (count - 1) as nat);
        if !prev.cut {
            let mv = moves_of(board)[count - 1];
            let child = alpha_beta(
                board_after(board, mv),
                -beta,
                -prev.alpha,
                (depth - 1) as nat,
                ply + 1,
            );
            if prev.alpha < -child.score < beta {
                lemma_line_is_principal(
                    board_after(board, mv),
                    -beta,
                    -prev.alpha,
                    (depth - 1) as nat,
                    ply + 1,
                );
                let line = seq![mv] + child.line;
                assert(line[0] == mv);
                assert(line.drop_first() =~= child.line);
            }
        }
    }
}

/// With a score strictly inside its window, alpha-beta search has found the
/// negamax value of the position.
pub proof fn lemma_alpha_beta_is_negamax(board: Board, alpha: int, beta: int, depth: nat, ply: nat)
    requires
        NEG_INF <= alpha,
        beta <= INF,
        alpha < alpha_beta(board, alpha, beta, depth, ply).score < beta,
    ensures
        alpha_beta(board, alpha, beta, depth, ply).score == negamax(board, depth, ply),
{
    lemma_alpha_beta_bounds_negamax(board, alpha, beta, depth, ply);
}

} // verus!
