//! Reading what a background web view left in its cache, and the polling loop
//! that waits for it.

use crate::text::{chars_eq, lit, string_of, trim, trim_str};
use vstd::prelude::*;

verus! {

/// A cache read from the page: nothing when the trimmed text is empty or is
/// `null` or `undefined`, else the trimmed text.
pub open spec fn cached_text(raw: Seq<char>) -> Option<Seq<char>> {
    let v = trim(raw);
    if v.len() == 0 || v == "null"@ || v == "undefined"@ {
        None
    } else {
        Some(v)
    }
}

/// The cache text read from the page, if the page holds one.
pub fn cached_value(raw: &str) -> (r: Option<String>)
    ensures
        crate::model::opt_view(r) == cached_text(raw@),
{
    let v = trim_str(raw);
    if v.len() == 0 || chars_eq(v.as_slice(), lit("null").as_slice()) || chars_eq(
        v.as_slice(),
        lit("undefined").as_slice(),
    ) {
        None
    } else {
        Some(string_of(v.as_slice()))
    }
}

/// What the polling loop does after a read of the cache.
#[derive(Clone, Copy, Debug, PartialEq, Eq, Structural)]
pub enum WaitAction {
    /// The cache was filled: stop and use it.
    Done,
    /// Not yet: sleep, then read again as attempt `next`.
    SleepThenRetry { next: i32 },
    /// The last attempt found nothing: give up.
    GiveUp,
}

/// The next step of a polling loop of `attempts` reads, after attempt `attempt`
/// (counted from 1) found the cache filled or not.
pub open spec fn wait_action(attempt: int, attempts: int, found: bool) -> WaitAction {
    if found {
        WaitAction::Done
    } else if attempt < attempts {
        WaitAction::SleepThenRetry { next: (attempt + 1) as i32 }
    } else {
        WaitAction::GiveUp
    }
}

/// The next step of a polling loop.
pub fn next_wait_action(attempt: i32, attempts: i32, found: bool) -> (r: WaitAction)
    requires
        1 <= attempt <= attempts,
    ensures
        r == wait_action(attempt as int, attempts as int, found),
{
    if found {
        WaitAction::Done
    } else if attempt < attempts {
        WaitAction::SleepThenRetry { next: attempt + 1 }
    } else {
        WaitAction::GiveUp
    }
}

} // verus!

verus! {

/// A polling loop of `attempts` reads (started at 1) reads at most
/// `attempts` times: each retry is the next attempt, none goes past the
/// last, and the last read that finds nothing gives up.
pub proof fn lemma_wait_bounded(attempt: int, attempts: int, found: bool)
    requires
        1 <= attempt <= attempts,
        attempts <= i32::MAX,
    ensures
        wait_action(attempt, attempts, found) matches WaitAction::SleepThenRetry { next } ==> next == attempt + 1
            && next <= attempts,
        (!found && attempt == attempts) ==> wait_action(attempt, attempts, found) == WaitAction::GiveUp,
        found ==> wait_action(attempt, attempts, found) == WaitAction::Done,
{
}

} // verus!
