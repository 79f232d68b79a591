//! When the score display pulses.
use vstd::prelude::*;

verus! {

/// Whether the score has climbed 100 points past `last_score`, the score
/// at which the display last grew; `last_score + 100` is taken as a `u32`,
/// so a negative `last_score` wraps round.
pub fn score_milestone(score: u32, last_score: i32) -> (res: bool)
    requires
        last_score + 100 <= i32::MAX,
    ensures
        res == (score >= ((last_score + 100) as u32)),
{
    score >= (last_score + 100) as u32
}

} // verus!
