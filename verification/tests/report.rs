use cozy_chess::{Board, Move};
use honse::search::options::SearchOption;
use honse::search::root::{search_root, Progress};
use honse::search::search::SearchInfo;
use honse::uci::report::{bestmove_line, info_line, nodes_line, split_line, write_decimal};
use honse::uci::tokens::{first_word, parse_number, same_text, split_words};

fn progress(depth: u8, score: i16, nodes: u64, nps: u64, time: u64, pv: &str) -> Progress {
    Progress {
        depth,
        score,
        nodes,
        nps,
        time,
        line: pv.split(' ').filter(|mv| !mv.is_empty()).map(|mv| mv.parse().unwrap()).collect(),
        pv: pv.to_string(),
    }
}

#[test]
fn write_decimal_writes_as_display_does() {
    for n in [0u64, 1, 9, 10, 11, 99, 100, 101, 1_000_000, 4_294_967_296, u64::MAX - 1, u64::MAX] {
        assert_eq!(write_decimal(n), format!("{n}"));
    }
}

#[test]
fn info_line_has_the_fields_in_order() {
    let line = info_line(&progress(3, 31_999, 4_865, 4_865, 12, "h4h2"));
    assert_eq!(line, "info depth 3 score cp 31999 nodes 4865 nps 4865 time 12 pv h4h2");

    let line = info_line(&progress(12, 0, 0, 0, 0, "e2e4 e7e5 g1f3"));
    assert_eq!(line, "info depth 12 score cp 0 nodes 0 nps 0 time 0 pv e2e4 e7e5 g1f3");
}

#[test]
fn info_line_writes_a_negative_score_with_its_sign() {
    let line = info_line(&progress(2, -31_998, 20, 20, 0, "a1b1 e2e1"));
    assert_eq!(line, "info depth 2 score cp -31998 nodes 20 nps 20 time 0 pv a1b1 e2e1");

    let line = info_line(&progress(255, i16::MIN, u64::MAX, u64::MAX, u64::MAX, ""));
    assert_eq!(
        line,
        format!(
            "info depth 255 score cp -32768 nodes {0} nps {0} time {0} pv ",
            u64::MAX
        )
    );
}

#[test]
fn info_line_reports_a_search() {
    let board: Board = "4r2k/1p3rbp/2p1N1p1/p3n3/P2NB1nq/1P6/4R1P1/B1Q2RK1 b - - 4 32"
        .parse()
        .unwrap();
    let mut info = SearchInfo::new();
    let report = search_root(&mut info, &board, SearchOption::Depth(2), false);
    for line in &report.lines {
        assert_eq!(
            info_line(line),
            format!(
                "info depth {} score cp {} nodes {} nps {} time {} pv {}",
                line.depth, line.score, line.nodes, line.nps, line.time, line.pv
            )
        );
    }
    assert_eq!(bestmove_line(report.best_move.unwrap()), "bestmove h4h2");
}

#[test]
fn bestmove_line_writes_the_move_as_the_rules_engine_does() {
    let castle: Move = "e1h1".parse().unwrap();
    assert_eq!(bestmove_line(castle), "bestmove e1h1");
    let promotion: Move = "e7e8q".parse().unwrap();
    assert_eq!(bestmove_line(promotion), "bestmove e7e8q");
}

#[test]
fn split_and_nodes_lines() {
    assert_eq!(split_line("e2e4".parse().unwrap(), 20), "e2e4 20");
    assert_eq!(split_line("a7a8n".parse().unwrap(), 0), "a7a8n 0");
    assert_eq!(nodes_line(8902), "nodes 8902");
    assert_eq!(nodes_line(0), "nodes 0");
}

#[test]
fn first_word_cuts_a_line_after_its_command() {
    assert_eq!(first_word("go depth 3\n"), ("go", " depth 3\n"));
    assert_eq!(first_word("  position\tstartpos moves e2e4"), ("position", "\tstartpos moves e2e4"));
    assert_eq!(first_word("quit"), ("quit", ""));
    assert_eq!(first_word("isready\r\n"), ("isready", "\r\n"));
    assert_eq!(first_word(""), ("", ""));
    assert_eq!(first_word(" \t \n"), ("", ""));
}

#[test]
fn first_word_and_the_rest_have_the_words_of_the_line() {
    for line in ["go wtime 100 btime 200", "  perft   4 ", "x", " a\tb\nc\x0cd\re "] {
        let (word, rest) = first_word(line);
        let mut list = vec![word.to_string()];
        list.extend(split_words(rest));
        assert_eq!(list, split_words(line));
    }
}

#[test]
fn split_words_splits_as_std_does() {
    for text in [
        "",
        " ",
        "one",
        " one",
        "one ",
        "one two",
        "  one \t two\r\nthree\x0cfour  ",
        "wtime 123 btime 456 movestogo 6",
        "na\u{a0}me \u{2003}wide",
    ] {
        let expected: Vec<String> = text.split_ascii_whitespace().map(String::from).collect();
        assert_eq!(split_words(text), expected);
    }
}

#[test]
fn same_text_compares_whole_texts() {
    assert!(same_text("", ""));
    assert!(same_text("moves", "moves"));
    assert!(!same_text("moves", "move"));
    assert!(!same_text("move", "moves"));
    assert!(!same_text("moves", "movez"));
    assert!(same_text("é", "é"));
}

#[test]
fn parse_number_reads_as_std_does() {
    for text in [
        "0", "7", "+7", "007", "255", "256", "-1", "+", "", " 7", "7 ", "1_000", "0x10", "٣", "99999999999999999999",
        "18446744073709551615", "18446744073709551616", "++1", "1+",
    ] {
        assert_eq!(parse_number(text, u64::MAX), text.parse::<u64>().ok(), "{text}");
        assert_eq!(
            parse_number(text, 255),
            text.parse::<u8>().ok().map(u64::from),
            "{text}"
        );
        assert_eq!(
            parse_number(text, u32::MAX as u64),
            text.parse::<u32>().ok().map(u64::from),
            "{text}"
        );
    }
}
