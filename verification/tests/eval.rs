use cozy_chess::Board;
use honse::chess::eval::{eval, EVAL_LIMIT};

#[test]
fn eval_sanity() {
    let board = Board::from_fen(
        "rnb1kbnr/pppppppp/8/8/8/8/PPPPPPPP/RNBQKBNR w KQkq - 0 1",
        false,
    )
    .unwrap();

    assert!(eval(&board) > 0)
}

#[test]
fn eval_eval_sanity() {
    let board = Board::from_fen(
        "rnb1kbnr/pppppppp/8/8/8/8/PPPPPPPP/RNBQKBNR w KQkq - 0 1",
        false,
    )
    .unwrap();

    assert!(eval(&board) > 0)
}

#[test]
fn eval_counts_material_in_centipawns() {
    let level = Board::default();
    assert_eq!(eval(&level), 0);

    // Black has no queen.
    let board: Board = "rnb1kbnr/pppppppp/8/8/8/8/PPPPPPPP/RNBQKBNR w KQkq - 0 1"
        .parse()
        .unwrap();
    assert_eq!(eval(&board), 900);

    // Black is a knight and a bishop down, white a pawn.
    let board: Board = "r1bqk1nr/pppppppp/8/8/8/8/PPPPPPP1/RNBQKBNR w KQkq - 0 1"
        .parse()
        .unwrap();
    assert_eq!(eval(&board), 320 + 330 - 100);
}

#[test]
fn eval_is_seen_from_the_side_to_move() {
    let white: Board = "rnb1kbnr/pppppppp/8/8/8/8/PPPPPPPP/RNBQKBNR w KQkq - 0 1"
        .parse()
        .unwrap();
    let black: Board = "rnb1kbnr/pppppppp/8/8/8/8/PPPPPPPP/RNBQKBNR b KQkq - 0 1"
        .parse()
        .unwrap();
    assert_eq!(eval(&white), 900);
    assert_eq!(eval(&black), -900);
}

#[test]
fn eval_stays_within_its_limit() {
    // Six queens against a bare king.
    let board: Board = "k7/8/8/8/8/8/8/KQQQQQQ1 w - - 0 1".parse().unwrap();
    let score = eval(&board);
    assert_eq!(score, 5_400);
    assert!(-EVAL_LIMIT <= score && score <= EVAL_LIMIT);

    let board: Board = "k7/8/8/8/8/8/8/KQQQQQQ1 b - - 0 1".parse().unwrap();
    assert_eq!(eval(&board), -5_400);
}
