use crate::chess::constants::{draw_score, mated_in, mated_in_score, INF, MATE, MAX_PLY, NEG_INF};
use crate::chess::eval::{eval, eval_score};
use crate::chess::move_gen::all_moves;
use crate::chess::rules::{board_after, moves_of, status_of};
use crate::search::minimax::{
    ends_at_horizon, lemma_alpha_beta_bounds_negamax, lemma_line_is_principal, line_value, negamax,
};
use crate::search::pv_table::{is_legal_line, PVTable};
use crate::search::timeman::{has_expired, is_expired};
use cozy_chess::{Board, GameStatus, Move};
use std::time::Instant;
use vstd::arithmetic::div_mod::{lemma_add_mod_noop_right, lemma_small_mod};
use vstd::prelude::*;

verus! {

/// The state shared by every node of one search: the node counter, the
/// deadline, if there is one, and the flag that stops the search.
pub struct SearchInfo {
    /// Nodes visited since the search began.
    pub nodes: u64,
    /// When the deadline's allowance began to run.
    pub start_timer: Option<Instant>,
    /// The allowance in milliseconds.
    pub stop_time: Option<u32>,
    /// Raised once the deadline has passed.
    pub stop_flag: bool,
}

impl SearchInfo {
    /// The search has been told to stop.
    pub open spec fn stopped(&self) -> bool {
        self.stop_flag
    }

    /// The search runs against a deadline.
    pub open spec fn has_deadline(&self) -> bool {
        self.start_timer is Some && self.stop_time is Some
    }

    /// Both states hold the same deadline.
    pub open spec fn same_deadline(&self, other: &Self) -> bool {
        self.start_timer == other.start_timer && self.stop_time == other.stop_time
    }

    /// The state before a search: no node counted, no deadline, not stopped.
    pub fn new() -> (info: Self)
        ensures
            info.nodes == 0,
            !info.stopped(),
            !info.has_deadline(),
            info.start_timer is None,
            info.stop_time is None,
    {
        SearchInfo { nodes: 0, start_timer: None, stop_time: None, stop_flag: false }
    }

    /// Brings the state back to what `new` gives.
    pub fn reset(&mut self)
        ensures
            final(self).nodes == 0,
            !final(self).stopped(),
            !final(self).has_deadline(),
            final(self).start_timer is None,
            final(self).stop_time is None,
    {
        self.nodes = 0;
        self.start_timer = None;
        self.stop_time = None;
        self.stop_flag = false;
    }
}

/// What a search that runs to its end returns: the score, the principal
/// variation and the number of nodes it visited.
pub struct Outcome {
    pub score: int,
    pub line: Seq<Move>,
    pub nodes: nat,
}

/// The state of a node's loop over its moves.
pub struct Scan {
    /// The lower bound of the window, raised by each move that beat it.
    pub alpha: int,
    /// The best score of any move so far.
    pub best: int,
    /// The line of the last move that raised `alpha`.
    pub line: Seq<Move>,
    /// The nodes visited below the moves tried so far.
    pub nodes: nat,
    /// A move reached `beta`: the remaining moves are not tried.
    pub cut: bool,
}

/// The outcome of a node that is not searched further.
pub open spec fn leaf(score: int) -> Outcome {
    Outcome { score, line: Seq::empty(), nodes: 0 }
}

/// Fail-soft negamax with alpha-beta pruning, to a fixed depth and with the
/// moves tried in the order of the move generator.
pub open spec fn alpha_beta(board: Board, alpha: int, beta: int, depth: nat, ply: nat) -> Outcome
    decreases depth, 1nat, 0nat,
{
    if ply >= MAX_PLY || depth == 0 {
        leaf(eval_score(board))
    } else {
        match status_of(board) {
            GameStatus::Won => leaf(mated_in_score(ply as int)),
            GameStatus::Drawn => leaf(0),
            GameStatus::Ongoing => {
                let scan = scan_moves(board, alpha, beta, depth, ply, moves_of(board).len());
                Outcome { score: scan.best, line: scan.line, nodes: scan.nodes }
            },
        }
    }
}

/// The state of a node's loop once the first `count` moves have been tried.
pub open spec fn scan_moves(
    board: Board,
    alpha: int,
    beta: int,
    depth: nat,
    ply: nat,
    count: nat,
) -> Scan
    decreases depth, 0nat, count,
{
    if count == 0 || depth == 0 {
        Scan { alpha, best: NEG_INF as int, line: Seq::empty(), nodes: 0, cut: false }
    } else {
        let prev = scan_moves(board, alpha, beta, depth, ply, (count - 1) as nat);
        if prev.cut {
            prev
        } else {
            let mv = moves_of(board)[count - 1];
            let child = alpha_beta(
                board_after(board, mv),
                -beta,
                -prev.alpha,
                (depth - 1) as nat,
                ply + 1,
            );
            next_scan(prev, mv, child, beta)
        }
    }
}

/// The state of the loop after one more move, whose subtree gave `child`.
pub open spec fn next_scan(prev: Scan, mv: Move, child: Outcome, beta: int) -> Scan {
    let score = -child.score;
    let nodes = prev.nodes + 1 + child.nodes;
    if score <= prev.best {
        Scan { nodes, ..prev }
    } else if score <= prev.alpha {
        Scan { best: score, nodes, ..prev }
    } else {
        Scan { alpha: score, best: score, line: seq![mv] + child.line, nodes, cut: score >= beta }
    }
}

/// The node counter after `visited` more nodes: it wraps at `2^64`.
pub open spec fn nodes_after(start: u64, visited: nat) -> int {
    (start + visited) % 0x1_0000_0000_0000_0000
}

/// What a search that ends with the stop flag down has returned and
/// counted: the outcome of `alpha_beta`, with its nodes added to the counter.
pub open spec fn is_complete(
    before: SearchInfo,
    after: SearchInfo,
    board: Board,
    alpha: int,
    beta: int,
    depth: nat,
    ply: nat,
    score: int,
    line: Seq<Move>,
) -> bool {
    let outcome = alpha_beta(board, alpha, beta, depth, ply);
    &&& score == outcome.score
    &&& line == outcome.line
    &&& after.nodes == nodes_after(before.nodes, outcome.nodes)
}

/// Searching is repeatable: two searches of one position with the same
/// window, depth and ply that both end with the stop flag down return the
/// same score and the same line, and from equal node counters they arrive
/// at equal node counters.
pub proof fn lemma_search_is_repeatable(
    board: Board,
    alpha: int,
    beta: int,
    depth: nat,
    ply: nat,
    first: (SearchInfo, SearchInfo, int, Seq<Move>),
    second: (SearchInfo, SearchInfo, int, Seq<Move>),
)
    requires
        is_complete(first.0, first.1, board, alpha, beta, depth, ply, first.2, first.3),
        is_complete(second.0, second.1, board, alpha, beta, depth, ply, second.2, second.3),
    ensures
        first.2 == second.2,
        first.3 == second.3,
        first.0.nodes == second.0.nodes ==> first.1.nodes == second.1.nodes,
{
}

/// A search that begins with the node counter at `start` and visits
/// `visited` nodes never enters a node with the counter at a multiple of
/// 1024, and so never reads the clock.
pub open spec fn reads_no_clock(start: u64, visited: nat) -> bool {
    start % 1024 != 0 && start % 1024 + visited < 1024
}

/// Once a move has cut the loop off, trying more moves changes nothing.
pub proof fn lemma_cut_ends_scan(
    board: Board,
    alpha: int,
    beta: int,
    depth: nat,
    ply: nat,
    count: nat,
    later: nat,
)
    requires
        count <= later,
        scan_moves(board, alpha, beta, depth, ply, count).cut,
    ensures
        scan_moves(board, alpha, beta, depth, ply, later) == scan_moves(
            board,
            alpha,
            beta,
            depth,
            ply,
            count,
        ),
    decreases later,
{
    if count < later {
        lemma_cut_ends_scan(board, alpha, beta, depth, ply, count, (later - 1) as nat);
    }
}

/// Trying more moves never lowers the count of nodes.
proof fn lemma_scan_nodes_grow(
    board: Board,
    alpha: int,
    beta: int,
    depth: nat,
    ply: nat,
    count: nat,
    later: nat,
)
    requires
        count <= later,
    ensures
        scan_moves(board, alpha, beta, depth, ply, count).nodes <= scan_moves(
            board,
            alpha,
            beta,
            depth,
            ply,
            later,
        ).nodes,
    decreases later,
{
    if count < later {
        lemma_scan_nodes_grow(board, alpha, beta, depth, ply, count, (later - 1) as nat);
    }
}

/// Within a search that reads no clock, the search below each move reads
/// none either.
proof fn lemma_reads_no_clock_below(start: u64, before: nat, below: nat, total: nat)
    requires
        reads_no_clock(start, total),
        before + 1 + below <= total,
    ensures
        reads_no_clock(
            vstd::wrapping::u64_specs::wrapping_add(nodes_after(start, before) as u64, 1),
            below,
        ),
{
}

/// Counting one node and then `below` more is counting `1 + below` nodes.
proof fn lemma_nodes_after_step(start: u64, visited: nat, below: nat)
    ensures
        nodes_after(
            vstd::wrapping::u64_specs::wrapping_add(nodes_after(start, visited) as u64, 1),
            below,
        ) == nodes_after(start, visited + 1 + below),
{
    let m = 0x1_0000_0000_0000_0000int;
    let a = nodes_after(start, visited);
    let b = vstd::wrapping::u64_specs::wrapping_add(a as u64, 1);
    assert(b as int == (a + 1) % m) by {
        if a + 1 < m {
            lemma_small_mod((a + 1) as nat, m as nat);
        }
    }
    assert(a == (start + visited) % m);
    lemma_add_mod_noop_right((1 + below) as int, (start + visited) as int, m);
    lemma_add_mod_noop_right(below as int, a + 1, m);
}

/// Reads the clock, if the search has a deadline, and raises the stop flag
/// once the deadline has passed.
fn poll_deadline(info: &mut SearchInfo)
    ensures
        final(info).nodes == old(info).nodes,
        final(info).same_deadline(old(info)),
        old(info).stopped() ==> final(info).stopped(),
        !old(info).has_deadline() ==> final(info).stopped() == old(info).stopped(),
        exists|elapsed_ms: u128| #[trigger] is_polled(*old(info), *final(info), elapsed_ms),
        old(info).has_deadline() && old(info).stop_time == Some(0u32) ==> final(info).stopped(),
{
    match (info.start_timer, info.stop_time) {
        (Some(timer), Some(stop_time)) => {
            let expired: bool = has_expired(&timer, stop_time);
            if expired {
                info.stop_flag = true;
            }
            proof {
                let elapsed_ms = choose|elapsed_ms: u128|
                    expired == #[trigger] is_expired(elapsed_ms, stop_time);
                assert(is_polled(*old(info), *info, elapsed_ms));
            }
        },
        _ => {
            assert(is_polled(*old(info), *info, 0));
        },
    }
}

/// The state after the clock was polled and read `elapsed_ms` milliseconds
/// since the deadline's allowance began: the stop flag is up if it was up
/// before or if there is a deadline and the reading has used up its
/// allowance; nothing else has changed.
pub open spec fn is_polled(before: SearchInfo, after: SearchInfo, elapsed_ms: u128) -> bool {
    &&& after.nodes == before.nodes
    &&& after.same_deadline(&before)
    &&& after.stop_flag == (before.stop_flag || (before.has_deadline() && is_expired(
        elapsed_ms,
        before.stop_time.unwrap(),
    )))
}

/// Searches `board` to `depth` within the window `(alpha, beta)` and returns
/// the score from the point of view of the side to move; `pv` receives the
/// principal variation.
///
/// The clock is read on entry whenever the node counter is a multiple of
/// 1024. Once the stop flag is up, every node below the root gives up at
/// once with score 0 and an empty line; the root itself always tries each of
/// its moves. A search that ends with the flag down has not been disturbed,
/// and its result is `alpha_beta`; with the full window that is the negamax
/// value of the position, and the line is a principal variation.
pub fn search(
    info: &mut SearchInfo,
    alpha: i16,
    beta: i16,
    board: &Board,
    depth: u8,
    ply: u8,
    pv: &mut PVTable,
) -> (score: i16)
    requires
        NEG_INF <= alpha < beta <= INF,
    ensures
        final(info).same_deadline(old(info)),
        old(info).stopped() ==> final(info).stopped(),
        !old(info).has_deadline() ==> final(info).stopped() == old(info).stopped(),
        !final(info).stopped() ==> is_complete(
            *old(info),
            *final(info),
            *board,
            alpha as int,
            beta as int,
            depth as nat,
            ply as nat,
            score as int,
            final(pv)@,
        ),
        !final(info).stopped() && alpha == NEG_INF && beta == INF ==> {
            &&& score == negamax(*board, depth as nat, ply as nat)
            &&& ends_at_horizon(*board, final(pv)@, depth as nat, ply as nat)
            &&& line_value(*board, final(pv)@, depth as nat, ply as nat) == score
        },
        !old(info).stopped() && reads_no_clock(
            old(info).nodes,
            alpha_beta(*board, alpha as int, beta as int, depth as nat, ply as nat).nodes,
        ) ==> !final(info).stopped(),
        old(info).stopped() && ply > 0 ==> score == 0 && final(pv)@.len() == 0 && final(info).nodes
            == old(info).nodes,
        !(final(info).stopped() && ply > 0) && (depth == 0 || ply >= MAX_PLY) ==> score
            == eval_score(*board),
        !(final(info).stopped() && ply > 0) && depth > 0 && ply < MAX_PLY && status_of(*board)
            == GameStatus::Won ==> score == mated_in_score(ply as int),
        !(final(info).stopped() && ply > 0) && depth > 0 && ply < MAX_PLY && status_of(*board)
            == GameStatus::Drawn ==> score == 0,
        -MATE <= score <= MATE,
        final(pv).wf(),
        is_legal_line(*board, final(pv)@),
        final(pv)@.len() <= depth,
        final(pv)@.len() == 0 || final(pv)@.len() + ply <= MAX_PLY,
        ply == 0 && depth > 0 && alpha == NEG_INF && status_of(*board) == GameStatus::Ongoing
            ==> final(pv)@.len() > 0,
    decreases depth,
{
    if info.nodes % 1024 == 0 {
        poll_deadline(info);
    }
    pv.clear();

    if info.stop_flag && ply > 0 {
        return 0;
    }
    if ply >= MAX_PLY {
        return eval(board);
    }
    if depth == 0 {
        return eval(board);
    }
    match board.status() {
        GameStatus::Won => {
            return mated_in(ply as i16);
        },
        GameStatus::Drawn => {
            return draw_score();
        },
        GameStatus::Ongoing => {},
    }

    let ghost first_alpha = alpha as int;
    let ghost total = alpha_beta(
        *board,
        first_alpha,
        beta as int,
        depth as nat,
        ply as nat,
    ).nodes;
    let ghost quiet = !old(info).stopped() && reads_no_clock(old(info).nodes, total);
    let mut alpha: i16 = alpha;
    let mut best_score: i16 = NEG_INF;
    let mut old_pv = PVTable::new();
    let moves: Vec<Move> = all_moves(board);
    let mut i: usize = 0;
    while i < moves.len()
        invariant_except_break
            alpha < beta,
            !info.stopped() ==> ({
                let scan = scan_moves(
                    *board,
                    first_alpha,
                    beta as int,
                    depth as nat,
                    ply as nat,
                    i as nat,
                );
                &&& !scan.cut
                &&& scan.alpha == alpha
                &&& scan.best == best_score
                &&& scan.line == pv@
                &&& info.nodes == nodes_after(old(info).nodes, scan.nodes)
            }),
        invariant
            moves@ == moves_of(*board),
            moves@.len() > 0,
            i <= moves.len(),
            total == scan_moves(
                *board,
                first_alpha,
                beta as int,
                depth as nat,
                ply as nat,
                moves@.len(),
            ).nodes,
            quiet == (!old(info).stopped() && reads_no_clock(old(info).nodes, total)),
            quiet ==> !info.stopped(),
            0 < depth,
            ply < MAX_PLY,
            NEG_INF <= first_alpha <= alpha,
            beta <= INF,
            info.same_deadline(old(info)),
            old(info).stopped() ==> info.stopped(),
            !old(info).has_deadline() ==> info.stopped() == old(info).stopped(),
            i == 0 ==> best_score == NEG_INF && alpha == first_alpha,
            i > 0 ==> -MATE <= best_score <= MATE,
            alpha <= MATE || alpha == first_alpha,
            pv.wf(),
            is_legal_line(*board, pv@),
            pv@.len() <= depth,
            pv@.len() == 0 || pv@.len() + ply <= MAX_PLY,
            first_alpha == NEG_INF && i > 0 ==> pv@.len() > 0,
        ensures
            i > 0,
            !info.stopped() ==> ({
                let scan = scan_moves(
                    *board,
                    first_alpha,
                    beta as int,
                    depth as nat,
                    ply as nat,
                    moves@.len(),
                );
                &&& scan.best == best_score
                &&& scan.line == pv@
                &&& info.nodes == nodes_after(old(info).nodes, scan.nodes)
            }),
        decreases moves.len() - i,
    {
        let mv: Move = moves[i];
        assert(moves_of(*board)[i as int] == mv);
        let mut new_board = board.clone();
        new_board.play_unchecked(mv);
        let ghost before = scan_moves(
            *board,
            first_alpha,
            beta as int,
            depth as nat,
            ply as nat,
            i as nat,
        );
        proof {
            if quiet {
                let child = alpha_beta(
                    new_board,
                    -(beta as int),
                    -(alpha as int),
                    (depth - 1) as nat,
                    (ply + 1) as nat,
                );
                assert(scan_moves(
                    *board,
                    first_alpha,
                    beta as int,
                    depth as nat,
                    ply as nat,
                    (i + 1) as nat,
                ) == next_scan(before, mv, child, beta as int));
                lemma_scan_nodes_grow(
                    *board,
                    first_alpha,
                    beta as int,
                    depth as nat,
                    ply as nat,
                    (i + 1) as nat,
                    moves@.len(),
                );
                lemma_reads_no_clock_below(old(info).nodes, before.nodes, child.nodes, total);
            }
        }
        info.nodes = info.nodes.wrapping_add(1);

        let score: i16 = -search(info, -beta, -alpha, &new_board, depth - 1, ply + 1, &mut old_pv);
        proof {
            if !info.stopped() {
                let child = alpha_beta(
                    new_board,
                    -(beta as int),
                    -(alpha as int),
                    (depth - 1) as nat,
                    (ply + 1) as nat,
                );
                lemma_nodes_after_step(old(info).nodes, before.nodes, child.nodes);
                assert(scan_moves(
                    *board,
                    first_alpha,
                    beta as int,
                    depth as nat,
                    ply as nat,
                    (i + 1) as nat,
                ) == next_scan(before, mv, child, beta as int));
            }
        }
        i += 1;

        if score > best_score {
            best_score = score;
            if score > alpha {
                alpha = score;
                pv.store(mv, &old_pv);
                proof {
                    assert((seq![mv] + old_pv@).drop_first() =~= old_pv@);
                }
                if alpha >= beta {
                    proof {
                        if !info.stopped() {
                            lemma_cut_ends_scan(
                                *board,
                                first_alpha,
                                beta as int,
                                depth as nat,
                                ply as nat,
                                i as nat,
                                moves@.len(),
                            );
                        }
                    }
                    break ;
                }
            }
        }
    }
    proof {
        lemma_alpha_beta_bounds_negamax(
            *board,
            first_alpha,
            beta as int,
            depth as nat,
            ply as nat,
        );
        if !info.stopped() && first_alpha == NEG_INF && beta == INF {
            lemma_line_is_principal(*board, first_alpha, beta as int, depth as nat, ply as nat);
        }
    }
    best_score
}

} // verus!
