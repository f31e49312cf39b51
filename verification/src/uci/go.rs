use crate::search::options::SearchOption;
use crate::search::root::{is_complete_report, is_sound_report, search_root, SearchReport};
use crate::search::search::SearchInfo;
use crate::uci::tokens::{number, parse_number, same_text, split_words, texts, words};
use cozy_chess::Board;
use vstd::prelude::*;

verus! {

/// Why the arguments of `go` were refused.
#[derive(Debug)]
pub enum SearchOptionError {
    /// A word that is not the name of a parameter stands where one is
    /// expected.
    UnrecognisedToken,
    /// The parameters given do not make up exactly one kind of budget.
    InvalidCombination,
}

/// The parameters read from the arguments of `go`.
pub struct GoParams {
    pub wtime: Option<u32>,
    pub btime: Option<u32>,
    pub winc: Option<u32>,
    pub binc: Option<u32>,
    pub movestogo: Option<u32>,
    pub depth: Option<u8>,
    pub nodes: Option<u64>,
    pub movetime: Option<u32>,
    pub infinite: bool,
}

/// No parameter read yet.
pub open spec fn no_params() -> GoParams {
    GoParams {
        wtime: None,
        btime: None,
        winc: None,
        binc: None,
        movestogo: None,
        depth: None,
        nodes: None,
        movetime: None,
        infinite: false,
    }
}

/// The value of a parameter that fits 32 bits.
pub open spec fn number_u32(text: Seq<char>) -> Option<u32> {
    match number(text, u32::MAX as nat) {
        Some(n) => Some(n as u32),
        None => None,
    }
}

/// The value of a parameter that fits 8 bits.
pub open spec fn number_u8(text: Seq<char>) -> Option<u8> {
    match number(text, u8::MAX as nat) {
        Some(n) => Some(n as u8),
        None => None,
    }
}

/// The value of a parameter that fits 64 bits.
pub open spec fn number_u64(text: Seq<char>) -> Option<u64> {
    match number(text, u64::MAX as nat) {
        Some(n) => Some(n as u64),
        None => None,
    }
}

/// The word at a position, or the empty word past the end.
pub open spec fn word_at(list: Seq<Seq<char>>, index: int) -> Seq<char> {
    if 0 <= index < list.len() {
        list[index]
    } else {
        Seq::empty()
    }
}

/// The parameters after one more pair of a name and a value. A value that is
/// not a number of the parameter's width leaves the parameter unset. The
/// word after `infinite` is passed over. `None` where the name is unknown.
pub open spec fn with_param(params: GoParams, name: Seq<char>, value: Seq<char>) -> Option<
    GoParams,
> {
    if name == "wtime"@ {
        Some(GoParams { wtime: number_u32(value), ..params })
    } else if name == "btime"@ {
        Some(GoParams { btime: number_u32(value), ..params })
    } else if name == "winc"@ {
        Some(GoParams { winc: number_u32(value), ..params })
    } else if name == "binc"@ {
        Some(GoParams { binc: number_u32(value), ..params })
    } else if name == "movestogo"@ {
        Some(GoParams { movestogo: number_u32(value), ..params })
    } else if name == "depth"@ {
        Some(GoParams { depth: number_u8(value), ..params })
    } else if name == "nodes"@ {
        Some(GoParams { nodes: number_u64(value), ..params })
    } else if name == "movetime"@ {
        Some(GoParams { movetime: number_u32(value), ..params })
    } else if name == "infinite"@ {
        Some(GoParams { infinite: true, ..params })
    } else {
        None
    }
}

/// The parameters read from the first `pairs` pairs of words, or `None`
/// where one of them begins with an unknown name.
pub open spec fn params_of(list: Seq<Seq<char>>, pairs: nat) -> Option<GoParams>
    decreases pairs,
{
    if pairs == 0 {
        Some(no_params())
    } else {
        match params_of(list, (pairs - 1) as nat) {
            Some(params) => with_param(
                params,
                word_at(list, 2 * (pairs - 1)),
                word_at(list, 2 * (pairs - 1) + 1),
            ),
            None => None,
        }
    }
}

/// The budget that a set of parameters asks for: both clocks and no other
/// budget, or exactly one of depth, nodes, move time and `infinite`.
pub open spec fn budget_of(params: GoParams) -> Result<SearchOption, SearchOptionError> {
    match (
        params.wtime,
        params.btime,
        params.depth,
        params.nodes,
        params.movetime,
        params.infinite,
    ) {
        (Some(wtime), Some(btime), None, None, None, false) => Ok(
            SearchOption::Time(wtime, btime, params.winc, params.binc, params.movestogo),
        ),
        (None, None, Some(depth), None, None, false) => Ok(SearchOption::Depth(depth)),
        (None, None, None, Some(nodes), None, false) => Ok(SearchOption::Nodes(nodes)),
        (None, None, None, None, Some(movetime), false) => Ok(SearchOption::Movetime(movetime)),
        (None, None, None, None, None, true) => Ok(SearchOption::Infinite),
        _ => Err(SearchOptionError::InvalidCombination),
    }
}

/// The search request that the words after `go` make.
pub open spec fn go_request(list: Seq<Seq<char>>) -> Result<SearchOption, SearchOptionError> {
    match params_of(list, ((list.len() + 1) / 2) as nat) {
        Some(params) => budget_of(params),
        None => Err(SearchOptionError::UnrecognisedToken),
    }
}

/// Reads a parameter of 32 bits.
fn parse_u32(text: &str) -> (value: Option<u32>)
    ensures
        value == number_u32(text@),
{
    match parse_number(text, 0xffff_ffff) {
        Some(n) => Some(n as u32),
        None => None,
    }
}

/// Reads a parameter of 8 bits.
fn parse_u8(text: &str) -> (value: Option<u8>)
    ensures
        value == number_u8(text@),
{
    match parse_number(text, 0xff) {
        Some(n) => Some(n as u8),
        None => None,
    }
}

/// Reads a parameter of 64 bits.
fn parse_u64(text: &str) -> (value: Option<u64>)
    ensures
        value == number_u64(text@),
{
    parse_number(text, 0xffff_ffff_ffff_ffff)
}

/// Reads the arguments of a `go` command into a search request.
pub fn parse_go(args: &str) -> (request: Result<SearchOption, SearchOptionError>)
    ensures
        request == go_request(words(args@)),
{
    let list: Vec<String> = split_words(args);
    let mut params = GoParams {
        wtime: None,
        btime: None,
        winc: None,
        binc: None,
        movestogo: None,
        depth: None,
        nodes: None,
        movetime: None,
        infinite: false,
    };
    let mut i: usize = 0;
    while i < list.len()
        invariant
            texts(list@) == words(args@),
            i <= list.len(),
            i % 2 == 0 || i == list.len(),
            params_of(words(args@), ((i + 1) / 2) as nat) == Some(params),
        decreases list.len() - i,
    {
        let name: &str = list[i].as_str();
        let value: &str = if i + 1 < list.len() {
            list[i + 1].as_str()
        } else {
            ""
        };
        proof {
            reveal_strlit("");
            assert(name@ == word_at(words(args@), i as int)) by {
                assert(texts(list@)[i as int] == list@[i as int]@);
            }
            assert(value@ =~= word_at(words(args@), i + 1)) by {
                if i + 1 < list.len() {
                    assert(texts(list@)[i + 1] == list@[i + 1]@);
                }
            }
            assert(2 * (((i + 1) / 2 + 1) - 1) == i);
        }
        if same_text(name, "wtime") {
            params.wtime = parse_u32(value);
        } else if same_text(name, "btime") {
            params.btime = parse_u32(value);
        } else if same_text(name, "winc") {
            params.winc = parse_u32(value);
        } else if same_text(name, "binc") {
            params.binc = parse_u32(value);
        } else if same_text(name, "movestogo") {
            params.movestogo = parse_u32(value);
        } else if same_text(name, "depth") {
            params.depth = parse_u8(value);
        } else if same_text(name, "nodes") {
            params.nodes = parse_u64(value);
        } else if same_text(name, "movetime") {
            params.movetime = parse_u32(value);
        } else if same_text(name, "infinite") {
            params.infinite = true;
        } else {
            proof {
                lemma_unknown_name_stays(
                    words(args@),
                    ((i + 1) / 2 + 1) as nat,
                    ((list.len() + 1) / 2) as nat,
                );
            }
            return Err(SearchOptionError::UnrecognisedToken);
        }
        i = if list.len() - i >= 2 {
            i + 2
        } else {
            list.len()
        };
    }
    match (params.wtime, params.btime, params.depth, params.nodes, params.movetime, params.infinite) {
        (Some(wtime), Some(btime), None, None, None, false) => Ok(
            SearchOption::Time(wtime, btime, params.winc, params.binc, params.movestogo),
        ),
        (None, None, Some(depth), None, None, false) => Ok(SearchOption::Depth(depth)),
        (None, None, None, Some(nodes), None, false) => Ok(SearchOption::Nodes(nodes)),
        (None, None, None, None, Some(movetime), false) => Ok(SearchOption::Movetime(movetime)),
        (None, None, None, None, None, true) => Ok(SearchOption::Infinite),
        _ => Err(SearchOptionError::InvalidCombination),
    }
}

/// Once a pair begins with an unknown name, no later pair mends it.
proof fn lemma_unknown_name_stays(list: Seq<Seq<char>>, pairs: nat, later: nat)
    requires
        pairs <= later,
        params_of(list, pairs) is None,
    ensures
        params_of(list, later) is None,
    decreases later,
{
    if pairs < later {
        lemma_unknown_name_stays(list, pairs, (later - 1) as nat);
    }
}

/// Handles a `go` command: reads its arguments, runs the search they ask
/// for and resets the search state. Arguments that make no valid request
/// start no search and leave the state as it is.
///
/// A search that no deadline can stop, because the request sets none and
/// the state held none, gives the complete report of its request.
pub fn go(args: &str, info: &mut SearchInfo, board: &Board, frc: bool) -> (report: Option<
    SearchReport,
>)
    ensures
        report is Some <==> go_request(words(args@)) is Ok,
        report is None ==> *final(info) == *old(info),
        report is Some ==> {
            &&& final(info).nodes == 0
            &&& !final(info).stopped()
            &&& !final(info).has_deadline()
        },
        match (report, go_request(words(args@))) {
            (Some(report), Ok(option)) => {
                &&& is_sound_report(report, *board, option, frc)
                &&& !old(info).stopped() && !old(info).has_deadline() && !(option is Time
                    || option is Movetime) ==> is_complete_report(
                    report.lines@,
                    *board,
                    option,
                    old(info).nodes,
                )
            },
            _ => true,
        },
{
    match parse_go(args) {
        Ok(option) => {
            let report = search_root(info, board, option, frc);
            info.reset();
            Some(report)
        },
        Err(_) => None,
    }
}

} // verus!
