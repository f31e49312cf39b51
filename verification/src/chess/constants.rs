use vstd::prelude::*;

verus! {

/// Plies from the root beyond which the search stops recursing.
pub const MAX_PLY: u8 = 128;

/// Upper end of the score window; no score ever reaches it.
pub const INF: i16 = 32_001;

/// Lower end of the score window.
pub const NEG_INF: i16 = -32_001;

/// Score of delivering mate at the root.
pub const MATE: i16 = 32_000;

/// Score of being mated at the root.
pub const MATED: i16 = -32_000;

/// Score of a position in which the side to move is checkmated `ply` plies
/// from the root.
pub open spec fn mated_in_score(ply: int) -> int {
    ply - MATE
}

/// Score of a position from which the side to move mates, the mate standing
/// on the board `ply` plies from the root.
pub open spec fn mate_in_score(ply: int) -> int {
    MATE - ply
}

/// The score for being checkmated `ply` plies from the root: the further
/// away the mate, the less bad it is.
pub fn mated_in(ply: i16) -> (score: i16)
    requires
        ply - MATE >= i16::MIN,
    ensures
        score == mated_in_score(ply as int),
{
    ply - MATE
}

/// The score for giving checkmate `ply` plies from the root: the nearer the
/// mate, the better.
pub fn mate_in(ply: i16) -> (score: i16)
    requires
        MATE - ply <= i16::MAX,
    ensures
        score == mate_in_score(ply as int),
{
    MATE - ply
}

/// The score of a drawn position.
pub fn draw_score() -> (score: i16)
    ensures
        score == 0,
{
    0
}

} // verus!
