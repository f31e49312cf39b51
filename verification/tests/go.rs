use honse::search::options::SearchOption;
use honse::uci::go::{parse_go, SearchOptionError};

#[test]
fn parse_success() {
    let tests: [(&str, SearchOption); 10] = [
        (
            "wtime 123 btime 456",
            SearchOption::Time(123, 456, None, None, None),
        ),
        (
            "btime 123 wtime 456",
            SearchOption::Time(456, 123, None, None, None),
        ),
        (
            "wtime 123 btime 456 winc 4",
            SearchOption::Time(123, 456, Some(4), None, None),
        ),
        (
            "wtime 123 btime 456 binc 5",
            SearchOption::Time(123, 456, None, Some(5), None),
        ),
        (
            "wtime 123 btime 456 movestogo 6",
            SearchOption::Time(123, 456, None, None, Some(6)),
        ),
        (
            "movestogo 6 btime 456 winc 7 wtime 123",
            SearchOption::Time(123, 456, Some(7), None, Some(6)),
        ),
        ("movetime 123", SearchOption::Movetime(123)),
        ("nodes 123", SearchOption::Nodes(123)),
        ("depth 123", SearchOption::Depth(123)),
        ("infinite", SearchOption::Infinite),
    ];

    for (input, result) in tests {
        println!("{input}");
        let options = parse_go(input);
        assert!(options.is_ok());
        assert_eq!(options.unwrap(), result);
    }
}

#[test]
fn parse_failure() {
    let tests: [&str; 12] = [
        "",
        "test",
        "movetime",
        "movetime test",
        "wtime 123",
        "wtime 123 winc 123 binc 123",
        "movestogo 123",
        "infinite movetime 123",
        "winc 123 binc 456",
        "nodes infinite",
        "movetime 123 nodes 456",
        "wtime 123.0 btime 456",
    ];

    for input in tests {
        println!("{input}");
        let gg = parse_go(input);
        assert!(gg.is_err());
    }
}

#[test]
fn parse_go_tells_the_two_errors_apart() {
    assert!(matches!(
        parse_go("depth 3 ponder"),
        Err(SearchOptionError::UnrecognisedToken)
    ));
    assert!(matches!(
        parse_go("depth 3 movetime 100"),
        Err(SearchOptionError::InvalidCombination)
    ));
    assert!(matches!(parse_go(""), Err(SearchOptionError::InvalidCombination)));
}

#[test]
fn parse_go_separates_words_by_any_ascii_space() {
    assert_eq!(
        parse_go("  wtime\t5000\r\n btime \x0c 4000  ").unwrap(),
        SearchOption::Time(5000, 4000, None, None, None)
    );
}

#[test]
fn parse_go_reads_numbers_as_std_does() {
    assert_eq!(parse_go("depth +7").unwrap(), SearchOption::Depth(7));
    assert_eq!(parse_go("depth 007").unwrap(), SearchOption::Depth(7));
    assert_eq!(parse_go("depth 255").unwrap(), SearchOption::Depth(255));
    assert!(parse_go("depth 256").is_err());
    assert!(parse_go("depth -1").is_err());
    assert!(parse_go("depth +").is_err());
    assert_eq!(
        parse_go("movetime 4294967295").unwrap(),
        SearchOption::Movetime(4294967295)
    );
    assert!(parse_go("movetime 4294967296").is_err());
    assert_eq!(
        parse_go("nodes 18446744073709551615").unwrap(),
        SearchOption::Nodes(18446744073709551615)
    );
    assert!(parse_go("nodes 18446744073709551616").is_err());
}

#[test]
fn parse_go_lets_a_later_bad_value_unset_a_parameter() {
    assert!(parse_go("depth 5 depth x").is_err());
    assert_eq!(parse_go("depth x depth 5").unwrap(), SearchOption::Depth(5));
}

#[test]
fn parse_go_passes_over_the_word_after_infinite() {
    assert_eq!(parse_go("infinite depth").unwrap(), SearchOption::Infinite);
    assert!(parse_go("infinite depth 3").is_err());
}

#[test]
fn parse_go_ignores_increments_beside_another_budget() {
    assert_eq!(parse_go("depth 4 winc 10").unwrap(), SearchOption::Depth(4));
}
