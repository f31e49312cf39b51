use cozy_chess::{Board, Move};
use honse::search::pv_table::PVTable;

#[test]
fn pv_table() {
    let mut pv = PVTable::new();
    let board = Board::from_fen("r3k3/7P/8/4N3/5K2/8/8/8 b q - 1 1", false).unwrap();

    let mv: Move = "e8a8".parse().unwrap();
    pv.store(mv, &PVTable::new());

    let mv: Move = "f4f5".parse().unwrap();
    pv.store(mv, &pv.clone());

    // Standard
    assert_eq!("f4f5 e8c8", pv.to_string(&board, false));
    // FRC
    assert_eq!("f4f5 e8a8", pv.to_string(&board, true));
}

#[test]
fn new_table_is_empty() {
    let pv = PVTable::new();
    assert_eq!(pv.len(), 0);
    assert!(pv.line().is_empty());
    assert!(pv.moves().is_empty());
    assert_eq!(pv.to_string(&Board::default(), false), "");
    assert!(pv.table.iter().all(|entry| entry.is_none()));
}

#[test]
fn store_puts_the_move_before_the_line_of_the_child() {
    let e2e4: Move = "e2e4".parse().unwrap();
    let e7e5: Move = "e7e5".parse().unwrap();
    let g1f3: Move = "g1f3".parse().unwrap();

    let mut leaf = PVTable::new();
    leaf.store(g1f3, &PVTable::new());
    let mut child = PVTable::new();
    child.store(e7e5, &leaf);
    let mut root = PVTable::new();
    root.store(e2e4, &child);

    assert_eq!(root.len(), child.len() + 1);
    assert_eq!(root.line(), vec![e2e4, e7e5, g1f3]);
    assert_eq!(root.moves(), &[Some(e2e4), Some(e7e5), Some(g1f3)]);
    assert_eq!(root.table[0], Some(e2e4));
    // The child is left as it was.
    assert_eq!(child.line(), vec![e7e5, g1f3]);
}

#[test]
fn store_replaces_a_longer_line() {
    let e2e4: Move = "e2e4".parse().unwrap();
    let d2d4: Move = "d2d4".parse().unwrap();
    let e7e5: Move = "e7e5".parse().unwrap();

    let mut child = PVTable::new();
    child.store(e7e5, &PVTable::new());
    let mut root = PVTable::new();
    root.store(e2e4, &child);
    root.store(d2d4, &PVTable::new());
    assert_eq!(root.line(), vec![d2d4]);
}

#[test]
fn store_fills_the_table_to_its_last_entry() {
    let mv: Move = "e2e4".parse().unwrap();
    let mut pv = PVTable::new();
    for _ in 0..128 {
        let child = pv.clone();
        pv.store(mv, &child);
    }
    assert_eq!(pv.len(), 128);
    assert_eq!(pv.line().len(), 128);
}

#[test]
fn clear_empties_the_line() {
    let mv: Move = "e2e4".parse().unwrap();
    let mut pv = PVTable::new();
    pv.store(mv, &PVTable::new());
    pv.clear();
    assert_eq!(pv.len(), 0);
    assert!(pv.line().is_empty());
}

#[test]
fn to_string_follows_the_board_along_the_line() {
    // White castles short, black castles long: each is written for the board
    // on which it is played.
    let board: Board = "r3k2r/8/8/8/8/8/8/R3K2R w KQkq - 0 1".parse().unwrap();
    let white: Move = "e1h1".parse().unwrap();
    let black: Move = "e8a8".parse().unwrap();
    let mut child = PVTable::new();
    child.store(black, &PVTable::new());
    let mut pv = PVTable::new();
    pv.store(white, &child);
    assert_eq!(pv.to_string(&board, false), "e1g1 e8c8");
    assert_eq!(pv.to_string(&board, true), "e1h1 e8a8");
}

#[test]
fn to_string_of_one_move_has_no_space() {
    let mut pv = PVTable::new();
    pv.store("e2e4".parse().unwrap(), &PVTable::new());
    assert_eq!(pv.to_string(&Board::default(), false), "e2e4");
}
