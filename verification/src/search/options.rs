use vstd::prelude::*;

verus! {

/// The budget of one search request. Exactly one kind applies to a search.
#[derive(PartialEq, Debug, Copy, Clone)]
pub enum SearchOption {
    /// Search to exactly this depth.
    Depth(u8),
    /// Search for this many milliseconds.
    Movetime(u32),
    /// Search until this many nodes have been visited.
    Nodes(u64),
    /// Clock state: white's and black's remaining milliseconds, then the
    /// optional increments of white and black and the moves to the next
    /// time control.
    Time(u32, u32, Option<u32>, Option<u32>, Option<u32>),
    /// Search until the depth ceiling.
    Infinite,
}

} // verus!
