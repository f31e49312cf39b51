use crate::chess::rules::{move_text, write_move_text};
use crate::search::root::Progress;
use cozy_chess::Move;
use vstd::prelude::*;
use vstd::string::StringExecFns;

verus! {

/// The character of a decimal digit.
pub open spec fn digit_char(digit: nat) -> char
    recommends
        digit < 10,
{
    if digit == 0 {
        '0'
    } else if digit == 1 {
        '1'
    } else if digit == 2 {
        '2'
    } else if digit == 3 {
        '3'
    } else if digit == 4 {
        '4'
    } else if digit == 5 {
        '5'
    } else if digit == 6 {
        '6'
    } else if digit == 7 {
        '7'
    } else if digit == 8 {
        '8'
    } else {
        '9'
    }
}

/// A number in decimal, without leading zeros.
pub open spec fn decimal(n: nat) -> Seq<char>
    decreases n,
{
    if n < 10 {
        seq![digit_char(n)]
    } else {
        decimal(n / 10).push(digit_char(n % 10))
    }
}

/// A number in decimal, with a minus sign where it is negative.
pub open spec fn signed_decimal(n: int) -> Seq<char> {
    if n < 0 {
        seq!['-'] + decimal((-n) as nat)
    } else {
        decimal(n as nat)
    }
}

/// The line that reports a completed depth.
pub open spec fn info_text(progress: Progress) -> Seq<char> {
    "info depth "@ + decimal(progress.depth as nat) + " score cp "@ + signed_decimal(
        progress.score as int,
    ) + " nodes "@ + decimal(progress.nodes as nat) + " nps "@ + decimal(progress.nps as nat)
        + " time "@ + decimal(progress.time as nat) + " pv "@ + progress.pv@
}

/// The line that names the move to play, as the rules engine writes it.
pub open spec fn bestmove_text(mv: Move) -> Seq<char> {
    "bestmove "@ + move_text(mv)
}

/// The line of `split` for one move and the number of lines that begin with
/// it.
pub open spec fn split_text(mv: Move, nodes: u64) -> Seq<char> {
    move_text(mv) + seq![' '] + decimal(nodes as nat)
}

/// The line that gives a total of nodes.
pub open spec fn nodes_text(nodes: u64) -> Seq<char> {
    "nodes "@ + decimal(nodes as nat)
}

/// A decimal digit as text.
fn digit_str(digit: u64) -> (text: &'static str)
    requires
        digit < 10,
    ensures
        text@ == seq![digit_char(digit as nat)],
{
    proof {
        reveal_strlit("0");
        reveal_strlit("1");
        reveal_strlit("2");
        reveal_strlit("3");
        reveal_strlit("4");
        reveal_strlit("5");
        reveal_strlit("6");
        reveal_strlit("7");
        reveal_strlit("8");
        reveal_strlit("9");
    }
    let text: &'static str = if digit == 0 {
        "0"
    } else if digit == 1 {
        "1"
    } else if digit == 2 {
        "2"
    } else if digit == 3 {
        "3"
    } else if digit == 4 {
        "4"
    } else if digit == 5 {
        "5"
    } else if digit == 6 {
        "6"
    } else if digit == 7 {
        "7"
    } else if digit == 8 {
        "8"
    } else {
        "9"
    };
    assert(text@ =~= seq![digit_char(digit as nat)]);
    text
}

/// Appends a number in decimal.
fn append_decimal(text: &mut String, n: u64)
    ensures
        final(text)@ == old(text)@ + decimal(n as nat),
    decreases n,
{
    if n >= 10 {
        append_decimal(text, n / 10);
    }
    let ghost before = text@;
    text.append(digit_str(n % 10));
    proof {
        if n >= 10 {
            assert(before + seq![digit_char((n % 10) as nat)] =~= old(text)@ + decimal(
                (n / 10) as nat,
            ).push(digit_char((n % 10) as nat)));
        }
    }
}

/// Writes a number in decimal.
pub fn write_decimal(n: u64) -> (text: String)
    ensures
        text@ == decimal(n as nat),
{
    let mut text = String::new();
    append_decimal(&mut text, n);
    text
}

/// Writes the line that reports a completed depth.
pub fn info_line(progress: &Progress) -> (line: String)
    ensures
        line@ == info_text(*progress),
{
    let mut line = String::from_str("info depth ");
    append_decimal(&mut line, progress.depth as u64);
    line.append(" score cp ");
    if progress.score < 0 {
        proof {
            reveal_strlit("-");
            assert("-"@ =~= seq!['-']);
        }
        line.append("-");
        append_decimal(&mut line, (-(progress.score as i32)) as u64);
    } else {
        append_decimal(&mut line, progress.score as u64);
    }
    line.append(" nodes ");
    append_decimal(&mut line, progress.nodes);
    line.append(" nps ");
    append_decimal(&mut line, progress.nps);
    line.append(" time ");
    append_decimal(&mut line, progress.time);
    line.append(" pv ");
    line.append(progress.pv.as_str());
    assert(line@ =~= info_text(*progress));
    line
}

/// Writes the line that names the move to play.
pub fn bestmove_line(mv: Move) -> (line: String)
    ensures
        line@ == bestmove_text(mv),
{
    let mut line = String::from_str("bestmove ");
    let text: String = write_move_text(mv);
    line.append(text.as_str());
    line
}

/// Writes the line of `split` for one move.
pub fn split_line(mv: Move, nodes: u64) -> (line: String)
    ensures
        line@ == split_text(mv, nodes),
{
    let mut line: String = write_move_text(mv);
    proof {
        reveal_strlit(" ");
        assert(" "@ =~= seq![' ']);
    }
    line.append(" ");
    append_decimal(&mut line, nodes);
    line
}

/// Writes the line that gives a total of nodes.
pub fn nodes_line(nodes: u64) -> (line: String)
    ensures
        line@ == nodes_text(nodes),
{
    let mut line = String::from_str("nodes ");
    append_decimal(&mut line, nodes);
    line
}

} // verus!
