use cozy_chess::{Board, Move, Square};
use honse::chess::move_gen::{all_moves, capture_moves};

#[test]
fn ep_gen() {
    let board_1 = Board::from_fen(
        "rnbqkbnr/pppp1p1p/8/5Pp1/4p3/8/PPPPP1PP/RNBQKBNR w KQkq g6 0 4",
        false,
    )
    .unwrap();
    let moves_1 = capture_moves(&board_1);

    let board_2 = Board::from_fen(
        "rnbqkb1r/p1pppppp/5n2/Pp6/8/8/1PPPPPPP/RNBQKBNR w KQkq b6 0 3",
        false,
    )
    .unwrap();
    let moves_2 = capture_moves(&board_2);

    let board_3 = Board::from_fen(
        "rnbqkbnr/pppp1ppp/8/3P4/4pP2/8/PPP1P1PP/RNBQKBNR b KQkq f3 0 3",
        false,
    )
    .unwrap();
    let moves_3 = capture_moves(&board_3);

    assert!(moves_1.contains(&Move {
        from: Square::F5,
        to: Square::G6,
        promotion: None
    }));

    assert!(moves_2.contains(&Move {
        from: Square::A5,
        to: Square::B6,
        promotion: None
    }));

    assert!(moves_3.contains(&Move {
        from: Square::E4,
        to: Square::F3,
        promotion: None
    }));
}

#[test]
fn capture_moves_are_the_legal_moves_that_take() {
    let board: Board = "r3k2r/p1ppqpb1/bn2pnp1/3PN3/1p2P3/2N2Q1p/PPPBBPPP/R3K2R w KQkq - 0 1"
        .parse()
        .unwrap();
    let captures = capture_moves(&board);
    let enemy = board.colors(!board.side_to_move());
    let expected: Vec<Move> = all_moves(&board)
        .into_iter()
        .filter(|mv| enemy.has(mv.to))
        .collect();
    assert_eq!(captures, expected);
    assert_eq!(captures.len(), 8);
}

#[test]
fn capture_moves_of_the_start_position_are_none() {
    assert!(capture_moves(&Board::default()).is_empty());
}

#[test]
fn capture_moves_keep_en_passant_to_pawns() {
    // The knight on e4 could reach the en passant square f6 too, but only the
    // pawn on g5 takes there.
    let board: Board = "4k3/8/8/5pP1/4N3/8/8/4K3 w - f6 0 2".parse().unwrap();
    let captures = capture_moves(&board);
    let en_passant: Move = "g5f6".parse().unwrap();
    assert!(captures.contains(&en_passant));
    assert!(!captures.contains(&"e4f6".parse().unwrap()));
    assert!(all_moves(&board).contains(&"e4f6".parse().unwrap()));
}
