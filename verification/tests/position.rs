use cozy_chess::Board;
use honse::uci::position::{position, PositionError};
use honse::uci::ucinewgame::ucinewgame;

#[test]
fn parse_startpos() {
    let tests: [(&str, &str); 3] = [
        (
            "",
            "rnbqkbnr/pppppppp/8/8/8/8/PPPPPPPP/RNBQKBNR w KQkq - 0 1",
        ),
        (
            "e2e4",
            "rnbqkbnr/pppppppp/8/8/4P3/8/PPPP1PPP/RNBQKBNR b KQkq e3 0 1",
        ),
        (
            "e2e4 c7c5 g1f3 d7d6 d2d4 c5d4 f3d4 g8f6 b1c3 g7g6",
            "rnbqkb1r/pp2pp1p/3p1np1/8/3NP3/2N5/PPP2PPP/R1BQKB1R w KQkq - 0 6",
        ),
    ];

    for (moves, fen_end) in tests {
        let input = format!("startpos moves {moves}");
        let mut board = cozy_chess::Board::startpos();

        position(&input, &mut board).unwrap();

        let expected = fen_end.parse().unwrap();
        assert_eq!(board, expected);
    }
}

#[test]
fn parse_fen() {
    let fens: [&str; 6] = [
        "rnbqkbnr/pppppppp/8/8/8/8/PPPPPPPP/RNBQKBNR w KQkq - 0 1",
        "r3k2r/p1ppqpb1/bn2pnp1/3PN3/1p2P3/2N2Q1p/PPPBBPPP/R3K2R w KQkq - 0 1",
        "rnbqkb1r/pp2pp1p/3p1np1/8/3NP3/2N5/PPP2PPP/R1BQKB1R w KQkq - 0 6",
        "rnbq1rk1/pp2ppbp/3p1np1/8/3NP3/2N1BP2/PPPQ2PP/R3KB1R b KQ - 2 8",
        "2rq1rk1/pp1bppbp/3p1np1/4n3/3NP3/1BN1BP2/PPPQ2PP/1K1R3R b - - 10 12",
        "2rqr1k1/pp1bppbp/3p1np1/4n3/3NP2P/1BN1BP2/PPPQ2P1/1K1R3R b - h3 0 13",
    ];

    for fen in fens {
        let input = format!("fen {fen}");
        let mut board = cozy_chess::Board::startpos();

        position(&input, &mut board).unwrap();

        let expected = fen.parse().unwrap();
        assert_eq!(board, expected);
    }
}

#[test]
fn parse_fen_moves() {
    let tests: [(&str, &str, &str); 5] = [
        (
            "rnbqkbnr/pppppppp/8/8/8/8/PPPPPPPP/RNBQKBNR w KQkq - 0 1",
            "",
            "rnbqkbnr/pppppppp/8/8/8/8/PPPPPPPP/RNBQKBNR w KQkq - 0 1",
        ),
        (
            "rnbqkbnr/pppppppp/8/8/8/8/PPPPPPPP/RNBQKBNR w KQkq - 0 1",
            "e2e4",
            "rnbqkbnr/pppppppp/8/8/4P3/8/PPPP1PPP/RNBQKBNR b KQkq e3 0 1",
        ),
        (
            "rnbqkbnr/pppppppp/8/8/8/8/PPPPPPPP/RNBQKBNR w KQkq - 0 1",
            "e2e4 c7c5 g1f3 d7d6 d2d4 c5d4 f3d4 g8f6 b1c3 g7g6",
            "rnbqkb1r/pp2pp1p/3p1np1/8/3NP3/2N5/PPP2PPP/R1BQKB1R w KQkq - 0 6",
        ),
        (
            "rnbqkbnr/pppppppp/8/8/8/8/PPPPPPPP/RNBQKBNR w KQkq - 0 1",
            "g2g3 g7g6 f1g2 f8g7 g1f3 g8f6 e1g1 e8g8",
            "rnbq1rk1/ppppppbp/5np1/8/8/5NP1/PPPPPPBP/RNBQ1RK1 w - - 6 5",
        ),
        (
            "rnbqkbnr/pppppppp/8/8/8/8/PPPPPPPP/RNBQKBNR w KQkq - 0 1",
            "g2g3 g7g6 f1g2 f8g7 g1f3 g8f6 e1h1 e8h8",
            "rnbq1rk1/ppppppbp/5np1/8/8/5NP1/PPPPPPBP/RNBQ1RK1 w - - 6 5",
        ),
    ];

    for (fen, moves, fen_end) in tests {
        let input = format!("fen {fen} moves {moves}");
        let mut board = cozy_chess::Board::startpos();

        position(&input, &mut board).unwrap();

        let expected = fen_end.parse().unwrap();
        assert_eq!(board, expected);
    }
}

#[test]
fn newgame() {
    let mut board = "rnbqkb1r/pp2pp1p/3p1np1/8/3NP3/2N5/PPP2PPP/R1BQKB1R w KQkq - 0 6"
        .parse()
        .unwrap();
    let expected = cozy_chess::Board::startpos();
    assert_ne!(board, expected);
    ucinewgame(&mut board);
    assert_eq!(board, expected);
}

#[test]
fn position_drops_the_moves_from_the_first_unreadable_word() {
    let mut board = Board::default();
    assert_eq!(position("startpos moves e2e4 oops e7e5", &mut board), Ok(()));
    let expected: Board = "rnbqkbnr/pppppppp/8/8/4P3/8/PPPP1PPP/RNBQKBNR b KQkq e3 0 1"
        .parse()
        .unwrap();
    assert_eq!(board, expected);
}

#[test]
fn position_reports_an_illegal_move_and_keeps_the_moves_before_it() {
    let mut board = Board::default();
    assert_eq!(
        position("startpos moves e2e4 e2e4", &mut board),
        Err(PositionError::IllegalMove)
    );
    let expected: Board = "rnbqkbnr/pppppppp/8/8/4P3/8/PPPP1PPP/RNBQKBNR b KQkq e3 0 1"
        .parse()
        .unwrap();
    assert_eq!(board, expected);
}

#[test]
fn position_leaves_the_board_alone_on_a_bad_fen() {
    let before: Board = "rnbqkb1r/pp2pp1p/3p1np1/8/3NP3/2N5/PPP2PPP/R1BQKB1R w KQkq - 0 6"
        .parse()
        .unwrap();
    let mut board = before.clone();
    assert_eq!(
        position("fen not/a/position w - - 0 1 moves e2e4", &mut board),
        Err(PositionError::InvalidFen)
    );
    assert_eq!(board, before);
    assert_eq!(position("fen", &mut board), Err(PositionError::InvalidFen));
    assert_eq!(board, before);
}

#[test]
fn position_passes_over_one_word_after_startpos() {
    // Whatever follows `startpos` is taken for the word `moves`.
    let mut board = Board::default();
    assert_eq!(position("startpos e2e4 d2d4", &mut board), Ok(()));
    let expected: Board = "rnbqkbnr/pppppppp/8/8/3P4/8/PPP1PPPP/RNBQKBNR b KQkq d3 0 1"
        .parse()
        .unwrap();
    assert_eq!(board, expected);

    let mut alone = "rnbqkb1r/pp2pp1p/3p1np1/8/3NP3/2N5/PPP2PPP/R1BQKB1R w KQkq - 0 6"
        .parse()
        .unwrap();
    assert_eq!(position("startpos", &mut alone), Ok(()));
    assert_eq!(alone, Board::default());
}

#[test]
fn position_without_a_known_first_word_plays_on_from_the_board() {
    let mut board = Board::default();
    assert_eq!(position("moves e2e4", &mut board), Ok(()));
    let expected: Board = "rnbqkbnr/pppppppp/8/8/4P3/8/PPPP1PPP/RNBQKBNR b KQkq e3 0 1"
        .parse()
        .unwrap();
    assert_eq!(board, expected);

    let mut untouched = Board::default();
    assert_eq!(position("", &mut untouched), Ok(()));
    assert_eq!(untouched, Board::default());
}

#[test]
fn position_splits_words_at_any_run_of_spaces() {
    let mut board = Board::default();
    assert_eq!(
        position(
            " fen   rnbqkbnr/pppppppp/8/8/8/8/PPPPPPPP/RNBQKBNR \t w  KQkq - 0 1   moves  e2e4 ",
            &mut board
        ),
        Ok(())
    );
    let expected: Board = "rnbqkbnr/pppppppp/8/8/4P3/8/PPPP1PPP/RNBQKBNR b KQkq e3 0 1"
        .parse()
        .unwrap();
    assert_eq!(board, expected);
}
