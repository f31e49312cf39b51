use crate::uci::go::number_u8;
use crate::uci::tokens::{parse_number, split_words, texts, words};
use vstd::prelude::*;

verus! {

/// The depth that the arguments of `perft` or `split` ask for: their first
/// word, where it is a number of 8 bits.
pub open spec fn depth_argument(list: Seq<Seq<char>>) -> Option<u8> {
    if list.len() == 0 {
        None
    } else {
        number_u8(list[0])
    }
}

/// Reads the depth from the arguments of a `perft` or `split` command.
pub fn parse_depth(args: &str) -> (depth: Option<u8>)
    ensures
        depth == depth_argument(words(args@)),
{
    let list: Vec<String> = split_words(args);
    if list.len() == 0 {
        return None;
    }
    assert(texts(list@)[0] == list@[0]@);
    match parse_number(list[0].as_str(), 0xff) {
        Some(depth) => Some(depth as u8),
        None => None,
    }
}

} // verus!
