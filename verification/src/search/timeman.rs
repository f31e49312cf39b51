use crate::chess::rules::side_to_move_of;
use crate::search::options::SearchOption;
use cozy_chess::{Board, Color};
use std::time::{Duration, Instant};
use vstd::pervasive::unreached;
use vstd::prelude::*;

verus! {

/// `std::time::Instant`, a reading of the monotonic clock.
#[verifier::external_type_specification]
#[verifier::external_body]
pub struct ExInstant(Instant);

/// `Instant::now`: reads the clock. Nothing is known of the reading.
pub assume_specification[ Instant::now ]() -> Instant;

/// `Instant::elapsed`: the time since the reading was taken. It depends on
/// the clock, so nothing is known of it.
pub assume_specification[ Instant::elapsed ](start: &Instant) -> Duration;

/// `Duration::as_millis`: the whole milliseconds of a duration.
pub assume_specification[ Duration::as_millis ](duration: &Duration) -> u128;

/// The milliseconds a side may spend on its move: a tenth of what is left on
/// its clock.
pub open spec fn allowance(option: SearchOption, side: Color) -> int
    recommends
        option is Time,
{
    match (option, side) {
        (SearchOption::Time(wtime, _, _, _, _), Color::White) => wtime as int / 10,
        (SearchOption::Time(_, btime, _, _, _), Color::Black) => btime as int / 10,
        _ => 0,
    }
}

/// Whether a clock that has run for `elapsed_ms` has used up an allowance.
/// The elapsed time is compared as a 32-bit count of milliseconds.
pub open spec fn is_expired(elapsed_ms: u128, allowance_ms: u32) -> bool {
    elapsed_ms % 0x1_0000_0000 >= allowance_ms
}

/// The time allowance of a clock-based search request, in milliseconds.
pub fn timeman(option: SearchOption, board: &Board) -> (millis: u32)
    requires
        option is Time,
    ensures
        millis == allowance(option, side_to_move_of(*board)),
{
    match option {
        SearchOption::Time(wtime, btime, _, _, _) => match board.side_to_move() {
            Color::White => wtime / 10,
            Color::Black => btime / 10,
        },
        _ => unreached(),
    }
}

/// Decides, for a given reading of the elapsed time, whether an allowance is
/// used up.
pub fn deadline_passed(elapsed_ms: u128, allowance_ms: u32) -> (expired: bool)
    ensures
        expired == is_expired(elapsed_ms, allowance_ms),
{
    let wrapped: u32 = (elapsed_ms % 0x1_0000_0000) as u32;
    wrapped >= allowance_ms
}

/// Reads the clock and tells whether the allowance that began at `start` is
/// used up. The answer depends on the clock alone: it is `deadline_passed`
/// of whatever the clock said, so an allowance of nothing is always used up.
pub fn has_expired(start: &Instant, allowance_ms: u32) -> (expired: bool)
    ensures
        exists|elapsed_ms: u128| expired == #[trigger] is_expired(elapsed_ms, allowance_ms),
        allowance_ms == 0 ==> expired,
{
    let elapsed: Duration = start.elapsed();
    deadline_passed(elapsed.as_millis(), allowance_ms)
}

} // verus!
