use crate::chess::constants::{INF, MATE, MAX_PLY, NEG_INF};
use crate::chess::rules::{is_legal_move, side_to_move_of, status_of};
use crate::search::options::SearchOption;
use crate::search::pv_table::{is_legal_line, line_text, PVTable};
use crate::search::search::{alpha_beta, is_complete, nodes_after, search, SearchInfo};
use crate::search::timeman::{allowance, timeman};
use cozy_chess::{Board, GameStatus, Move};
use std::time::{Duration, Instant};
use vstd::prelude::*;

verus! {

/// What is reported after each depth that the search completes.
pub struct Progress {
    /// The depth that was searched.
    pub depth: u8,
    /// The score of the position in centipawns, for the side to move.
    pub score: i16,
    /// Nodes visited since the search began, all depths together.
    pub nodes: u64,
    /// Nodes per second.
    pub nps: u64,
    /// Milliseconds since the search began.
    pub time: u64,
    /// The principal variation.
    pub line: Vec<Move>,
    /// The principal variation as text.
    pub pv: String,
}

/// The state of an iterative-deepening search between two depths.
pub struct RootSearch {
    /// The last depth to search.
    pub ceiling: u8,
    /// The depth searched last, 0 before the first.
    pub depth: u8,
    /// The node budget, if the request set one.
    pub node_limit: Option<u64>,
    /// The first move of the latest accepted principal variation.
    pub best_move: Option<Move>,
    /// No further depth will be searched.
    pub finished: bool,
    /// When the search began.
    pub started: Instant,
    /// The principal variation of the root.
    pub pv: PVTable,
}

/// The result of a whole search: one report per completed depth and the move
/// to play.
pub struct SearchReport {
    /// The report of each accepted depth, shallowest first.
    pub lines: Vec<Progress>,
    /// The first move of the last principal variation, if there is one.
    pub best_move: Option<Move>,
}

/// The last depth that a request asks for.
pub open spec fn depth_ceiling(option: SearchOption) -> int {
    match option {
        SearchOption::Depth(depth) => depth as int,
        _ => MAX_PLY as int,
    }
}

/// The node budget of a request.
pub open spec fn node_budget(option: SearchOption) -> Option<u64> {
    match option {
        SearchOption::Nodes(nodes) => Some(nodes),
        _ => None,
    }
}

/// Nodes per second, where anything under a second counts as one second.
pub open spec fn nodes_per_second(nodes: u64, elapsed_ms: u64) -> int {
    if elapsed_ms / 1000 >= 1 {
        nodes as int / (elapsed_ms as int / 1000)
    } else {
        nodes as int
    }
}

/// The node counter after the depths `1..=depth` have been searched from the
/// root, one after the other and undisturbed.
pub open spec fn nodes_at_depth(board: Board, start: u64, depth: nat) -> int
    decreases depth,
{
    if depth == 0 {
        start as int
    } else {
        nodes_after(
            nodes_at_depth(board, start, (depth - 1) as nat) as u64,
            alpha_beta(board, NEG_INF as int, INF as int, depth, 0).nodes,
        )
    }
}

/// The report agrees with an undisturbed search of its depth that began with
/// the node counter at `start`.
pub open spec fn is_exact(progress: Progress, board: Board, start: u64) -> bool {
    let outcome = alpha_beta(board, NEG_INF as int, INF as int, progress.depth as nat, 0);
    &&& progress.score == outcome.score
    &&& progress.line@ == outcome.line
    &&& progress.nodes == nodes_at_depth(board, start, progress.depth as nat)
}

/// The reports of a search that ended with the stop flag down: each agrees
/// with an undisturbed search of its depth, and the search went on to the
/// depth ceiling or, under a node budget, to the first depth at which the
/// budget was used up.
pub open spec fn is_complete_report(
    lines: Seq<Progress>,
    board: Board,
    option: SearchOption,
    start: u64,
) -> bool {
    &&& lines.len() <= depth_ceiling(option)
    &&& forall|k: int|
        0 <= k < lines.len() ==> (#[trigger] lines[k]).depth == k + 1 && is_exact(
            lines[k],
            board,
            start,
        )
    &&& match option {
        SearchOption::Nodes(limit) => {
            &&& forall|k: int| 0 <= k < lines.len() - 1 ==> (#[trigger] lines[k]).nodes < limit
            &&& lines.len() == depth_ceiling(option) || (lines.len() > 0 && lines.last().nodes
                >= limit)
        },
        _ => lines.len() == depth_ceiling(option),
    }
}

/// What holds of every report, however the search was cut short.
pub open spec fn is_sound(progress: Progress, board: Board, frc: bool) -> bool {
    &&& -MATE <= progress.score <= MATE
    &&& progress.nps == nodes_per_second(progress.nodes, progress.time)
    &&& is_legal_line(board, progress.line@)
    &&& progress.line@.len() <= progress.depth
    &&& status_of(board) == GameStatus::Ongoing ==> progress.line@.len() > 0
    &&& progress.pv@ == line_text(board, progress.line@, frc, progress.line@.len())
}

/// What holds of the result of every search from the root, however it
/// ended: the reports are those of the depths 1, 2, ... in order, each of
/// them sound, and the best move is that of the last report with a line. A
/// search to depth 1 or more has a report, and in a game that is not over a
/// best move, which is legal.
pub open spec fn is_sound_report(
    report: SearchReport,
    board: Board,
    option: SearchOption,
    frc: bool,
) -> bool {
    &&& report.lines@.len() <= depth_ceiling(option)
    &&& forall|k: int|
        0 <= k < report.lines@.len() ==> (#[trigger] report.lines@[k]).depth == k + 1 && is_sound(
            report.lines@[k],
            board,
            frc,
        )
    &&& report.best_move == best_move_of(report.lines@)
    &&& depth_ceiling(option) > 0 ==> report.lines@.len() > 0
    &&& depth_ceiling(option) > 0 && status_of(board) == GameStatus::Ongoing ==> (
    report.best_move matches Some(mv) && is_legal_move(board, mv))
}

/// The deadline that a request sets: none is set, and the old one kept, by a
/// request that limits depth or nodes or nothing.
pub open spec fn has_deadline_of(
    after: SearchInfo,
    before: SearchInfo,
    board: Board,
    option: SearchOption,
) -> bool {
    match option {
        SearchOption::Time(_, _, _, _, _) => {
            &&& after.start_timer is Some
            &&& after.stop_time == Some(allowance(option, side_to_move_of(board)) as u32)
        },
        SearchOption::Movetime(millis) => {
            &&& after.start_timer is Some
            &&& after.stop_time == Some(millis)
        },
        _ => after.same_deadline(&before),
    }
}

/// The first move of the last report whose line is not empty.
pub open spec fn best_move_of(lines: Seq<Progress>) -> Option<Move>
    decreases lines.len(),
{
    if lines.len() == 0 {
        None
    } else if lines.last().line@.len() > 0 {
        Some(lines.last().line@[0])
    } else {
        best_move_of(lines.drop_last())
    }
}

/// Reports that agree line by line on the principal variation name the same
/// best move.
proof fn lemma_best_move_of_same_lines(first: Seq<Progress>, second: Seq<Progress>)
    requires
        first.len() == second.len(),
        forall|k: int| 0 <= k < first.len() ==> (#[trigger] first[k]).line@ == second[k].line@,
    ensures
        best_move_of(first) == best_move_of(second),
    decreases first.len(),
{
    if first.len() > 0 {
        assert(first.last().line@ == second.last().line@);
        lemma_best_move_of_same_lines(first.drop_last(), second.drop_last());
    }
}

/// Iterative deepening is repeatable: two searches of one position for the
/// same request that begin with equal node counters and both end with the
/// stop flag down report the same depths, and for each depth the same score,
/// line and node count; they name the same best move.
pub proof fn lemma_search_root_is_repeatable(
    board: Board,
    option: SearchOption,
    start: u64,
    first: Seq<Progress>,
    second: Seq<Progress>,
)
    requires
        is_complete_report(first, board, option, start),
        is_complete_report(second, board, option, start),
    ensures
        first.len() == second.len(),
        forall|k: int|
            0 <= k < first.len() ==> {
                &&& (#[trigger] first[k]).depth == second[k].depth
                &&& first[k].score == second[k].score
                &&& first[k].line@ == second[k].line@
                &&& first[k].nodes == second[k].nodes
            },
        best_move_of(first) == best_move_of(second),
{
    if first.len() < second.len() {
        let k = first.len() - 1;
        if k >= 0 {
            assert(is_exact(first[k], board, start) && is_exact(second[k], board, start));
            assert(first[k].depth == second[k].depth);
        }
    } else if second.len() < first.len() {
        let k = second.len() - 1;
        if k >= 0 {
            assert(is_exact(first[k], board, start) && is_exact(second[k], board, start));
            assert(first[k].depth == second[k].depth);
        }
    }
    assert forall|k: int| 0 <= k < first.len() implies {
        &&& (#[trigger] first[k]).depth == second[k].depth
        &&& first[k].score == second[k].score
        &&& first[k].line@ == second[k].line@
        &&& first[k].nodes == second[k].nodes
    } by {
        assert(is_exact(first[k], board, start) && is_exact(second[k], board, start));
    }
    lemma_best_move_of_same_lines(first, second);
}

impl RootSearch {
    /// The depth searched last is within the ceiling, and the line is well
    /// formed.
    pub open spec fn wf(&self) -> bool {
        self.depth <= self.ceiling && self.pv.wf()
    }

    /// Another depth will be searched.
    pub open spec fn has_next(&self) -> bool {
        !self.finished && self.depth < self.ceiling
    }
}

/// Nodes per second for a report.
pub fn nps(nodes: u64, elapsed_ms: u64) -> (rate: u64)
    ensures
        rate == nodes_per_second(nodes, elapsed_ms),
{
    let seconds: u64 = elapsed_ms / 1000;
    if seconds >= 1 {
        nodes / seconds
    } else {
        nodes
    }
}

/// Milliseconds since `started`, as a 64-bit count. The reading depends on
/// the clock.
fn elapsed_millis(started: &Instant) -> (millis: u64) {
    let elapsed: Duration = started.elapsed();
    (elapsed.as_millis() % 0x1_0000_0000_0000_0000) as u64
}

/// Sets a search up for a request: the depth ceiling, the node budget and,
/// for a request that limits time, the deadline.
pub fn begin_search(info: &mut SearchInfo, board: &Board, option: SearchOption) -> (root:
    RootSearch)
    ensures
        root.wf(),
        root.ceiling == depth_ceiling(option),
        root.depth == 0,
        root.node_limit == node_budget(option),
        root.best_move is None,
        !root.finished,
        root.pv@.len() == 0,
        final(info).nodes == old(info).nodes,
        final(info).stop_flag == old(info).stop_flag,
        has_deadline_of(*final(info), *old(info), *board, option),
{
    let started = Instant::now();
    let ceiling: u8 = match option {
        SearchOption::Depth(depth) => depth,
        SearchOption::Time(_, _, _, _, _) => {
            info.start_timer = Some(Instant::now());
            info.stop_time = Some(timeman(option, board));
            MAX_PLY
        },
        SearchOption::Movetime(millis) => {
            info.start_timer = Some(Instant::now());
            info.stop_time = Some(millis);
            MAX_PLY
        },
        SearchOption::Infinite | SearchOption::Nodes(_) => MAX_PLY,
    };
    let node_limit: Option<u64> = match option {
        SearchOption::Nodes(nodes) => Some(nodes),
        _ => None,
    };
    RootSearch {
        ceiling,
        depth: 0,
        node_limit,
        best_move: None,
        finished: false,
        started,
        pv: PVTable::new(),
    }
}

/// Searches the next depth from the root and reports it.
///
/// Nothing is searched, and `None` returned, once the ceiling is reached or
/// the search has finished. A depth beyond the first during which the stop
/// flag was raised is discarded: it gives `None`, leaves the best move as it
/// was and finishes the search. The first depth is always accepted. After an
/// accepted depth the search finishes when the node budget is used up.
pub fn search_depth(root: &mut RootSearch, info: &mut SearchInfo, board: &Board, frc: bool) -> (report:
    Option<Progress>)
    requires
        old(root).wf(),
    ensures
        final(root).wf(),
        final(root).ceiling == old(root).ceiling,
        final(root).node_limit == old(root).node_limit,
        final(root).started == old(root).started,
        final(info).same_deadline(old(info)),
        old(info).stopped() ==> final(info).stopped(),
        !old(info).has_deadline() ==> final(info).stopped() == old(info).stopped(),
        !old(root).has_next() ==> {
            &&& report is None
            &&& final(root).finished
            &&& final(root).depth == old(root).depth
            &&& final(root).best_move == old(root).best_move
            &&& *final(info) == *old(info)
        },
        old(root).has_next() ==> {
            &&& final(root).depth == old(root).depth + 1
            &&& report is None <==> final(info).stopped() && final(root).depth > 1
            &&& report is None ==> {
                &&& final(root).finished
                &&& final(root).best_move == old(root).best_move
            }
        },
        old(root).has_next() ==> match report {
            Some(progress) => {
                &&& progress.depth == final(root).depth
                &&& progress.nodes == final(info).nodes
                &&& is_sound(progress, *board, frc)
                &&& final(root).best_move == if progress.line@.len() > 0 {
                    Some(progress.line@[0])
                } else {
                    old(root).best_move
                }
                &&& final(root).finished == match final(root).node_limit {
                    Some(limit) => progress.nodes >= limit,
                    None => false,
                }
                &&& !final(info).stopped() ==> is_complete(
                    *old(info),
                    *final(info),
                    *board,
                    NEG_INF as int,
                    INF as int,
                    progress.depth as nat,
                    0,
                    progress.score as int,
                    progress.line@,
                )
            },
            None => true,
        },
{
    if root.finished || root.depth >= root.ceiling {
        root.finished = true;
        return None;
    }
    let depth: u8 = root.depth + 1;
    root.depth = depth;
    let score: i16 = search(info, NEG_INF, INF, board, depth, 0, &mut root.pv);

    if info.stop_flag && depth > 1 {
        root.finished = true;
        return None;
    }
    let time: u64 = elapsed_millis(&root.started);
    let line: Vec<Move> = root.pv.line();
    let pv: String = root.pv.to_string(board, frc);
    if line.len() > 0 {
        root.best_move = Some(line[0]);
    }
    match root.node_limit {
        Some(limit) => {
            if info.nodes >= limit {
                root.finished = true;
            }
        },
        None => {},
    }
    Some(Progress { depth, score, nodes: info.nodes, nps: nps(info.nodes, time), time, line, pv })
}

/// Runs iterative deepening for one request: depth 1, 2, ... up to the
/// ceiling of the request, or until the deadline or the node budget ends the
/// search, and returns the report of each accepted depth with the best move
/// of the last of them.
pub fn search_root(info: &mut SearchInfo, board: &Board, option: SearchOption, frc: bool) -> (report:
    SearchReport)
    ensures
        has_deadline_of(*final(info), *old(info), *board, option),
        old(info).stopped() ==> final(info).stopped(),
        final(info).stopped() ==> old(info).stopped() || old(info).has_deadline() || option is Time
            || option is Movetime,
        is_sound_report(report, *board, option, frc),
        !final(info).stopped() ==> final(info).nodes == nodes_at_depth(
            *board,
            old(info).nodes,
            report.lines@.len(),
        ),
        !final(info).stopped() ==> is_complete_report(
            report.lines@,
            *board,
            option,
            old(info).nodes,
        ),
{
    let mut root = begin_search(info, board, option);
    let mut lines: Vec<Progress> = Vec::new();
    let ghost start = *info;
    loop
        invariant_except_break
            root.depth == 0 ==> !root.finished,
            !info.stopped() ==> match option {
                SearchOption::Nodes(limit) => root.finished <==> lines@.len() > 0
                    && lines@.last().nodes >= limit,
                _ => !root.finished,
            },
        invariant
            root.wf(),
            root.ceiling == depth_ceiling(option),
            root.node_limit == node_budget(option),
            start.nodes == old(info).nodes,
            start.stop_flag == old(info).stop_flag,
            has_deadline_of(start, *old(info), *board, option),
            info.same_deadline(&start),
            start.stopped() ==> info.stopped(),
            !start.has_deadline() ==> info.stopped() == start.stopped(),
            lines@.len() <= root.depth,
            root.finished || lines@.len() == root.depth,
            root.depth > 0 ==> lines@.len() > 0,
            forall|k: int|
                0 <= k < lines@.len() ==> (#[trigger] lines@[k]).depth == k + 1 && is_sound(
                    lines@[k],
                    *board,
                    frc,
                ),
            root.best_move == best_move_of(lines@),
            !info.stopped() ==> info.nodes == nodes_at_depth(*board, start.nodes, lines@.len()),
            !info.stopped() ==> forall|k: int|
                0 <= k < lines@.len() ==> is_exact(#[trigger] lines@[k], *board, start.nodes),
            !info.stopped() ==> match option {
                SearchOption::Nodes(limit) => forall|k: int|
                    0 <= k < lines@.len() - 1 ==> (#[trigger] lines@[k]).nodes < limit,
                _ => true,
            },
        ensures
            lines@.len() > 0 || root.ceiling == 0,
            !info.stopped() ==> match option {
                SearchOption::Nodes(limit) => lines@.len() == root.ceiling || (lines@.len() > 0
                    && lines@.last().nodes >= limit),
                _ => lines@.len() == root.ceiling,
            },
        decreases root.ceiling - root.depth,
    {
        let ghost shown = lines@;
        match search_depth(&mut root, info, board, frc) {
            Some(progress) => {
                lines.push(progress);
                proof {
                    assert(forall|k: int| 0 <= k < shown.len() ==> lines@[k] == shown[k]);
                    assert(lines@.drop_last() =~= shown);
                    if !info.stopped() {
                        assert(is_exact(lines@.last(), *board, start.nodes));
                    }
                }
            },
            None => {
                break ;
            },
        }
    }
    proof {
        if lines@.len() > 0 && status_of(*board) == GameStatus::Ongoing {
            let last = lines@.last();
            assert(is_sound(last, *board, frc));
        }
    }
    SearchReport { lines, best_move: root.best_move }
}

} // verus!
