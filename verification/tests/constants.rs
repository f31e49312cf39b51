use honse::chess::constants::{draw_score, mate_in, mated_in, INF, MATE, MATED, MAX_PLY, NEG_INF};

#[test]
fn score_constants_are_symmetric() {
    assert_eq!(INF, 32_001);
    assert_eq!(NEG_INF, -INF);
    assert_eq!(MATE, 32_000);
    assert_eq!(MATED, -MATE);
    assert_eq!(MAX_PLY, 128);
}

#[test]
fn mated_in_grows_with_the_distance() {
    assert_eq!(mated_in(0), -32_000);
    assert_eq!(mated_in(2), -31_998);
    assert_eq!(mated_in(127), -31_873);
    assert!(mated_in(4) > mated_in(2));
}

#[test]
fn mate_in_shrinks_with_the_distance() {
    assert_eq!(mate_in(0), 32_000);
    assert_eq!(mate_in(1), 31_999);
    assert_eq!(mate_in(3), 31_997);
    assert_eq!(mate_in(5), -mated_in(5));
}

#[test]
fn draw_scores_nothing() {
    assert_eq!(draw_score(), 0);
}
