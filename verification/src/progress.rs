//! The session's goal: a collection rate to reach, announced once.
use vstd::prelude::*;

verus! {

/// The collection rate, in milli-dust per second, that completes the
/// game.
pub const COMPLETE_COLLECTION_RATE_MILLI: u64 = 8_000;

/// The announcement that the goal was reached.
#[derive(Clone, Copy, PartialEq, Eq, Structural, Debug)]
pub struct CompleteTheGame;

/// Raise the completion announcement the first time the smoothed
/// collection rate reaches the goal; `marker` remembers that it was
/// already sent.
pub fn send_complete_event(marker: &mut bool, collect_rate_milli: u64) -> (r: Option<CompleteTheGame>)
    ensures
        (r is Some) == (!*old(marker) && collect_rate_milli >= COMPLETE_COLLECTION_RATE_MILLI),
        *final(marker) == (*old(marker) || collect_rate_milli >= COMPLETE_COLLECTION_RATE_MILLI),
{
    if *marker {
        return None;
    }
    if collect_rate_milli >= COMPLETE_COLLECTION_RATE_MILLI {
        *marker = true;
        Some(CompleteTheGame)
    } else {
        None
    }
}

} // verus!
