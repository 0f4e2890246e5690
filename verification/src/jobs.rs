//! The background loops of the service: each follows its own cache and
//! runs on its own.

pub mod corridors;
pub mod flights;
pub mod restrictions;

use crate::time::{utc_now, Pause, Timestamp, NANOS_PER_SECOND};
use vstd::prelude::*;

verus! {

/// The instant at which the iteration after the one that starts now, by the
/// clock, is due: `interval_seconds` from now.
pub fn next_trigger(interval_seconds: u16) -> (trigger: Timestamp)
    ensures
        exists|now: Timestamp| trigger == #[trigger] now.later_by(interval_seconds as u32),
{
    let now = utc_now();
    now.plus_seconds(interval_seconds as u32)
}

/// Decides, by the clock, how long a loop sleeps before its next iteration
/// is due at `trigger`: not at all when that instant has come, so that an
/// iteration that overran is followed by the next at once.
pub fn sleep_until(trigger: &Timestamp) -> (pause: Option<Pause>)
    ensures
        exists|now: Timestamp| pause == #[trigger] now.pause_until(*trigger),
        pause matches Some(p) ==> p.nanos < NANOS_PER_SECOND,
{
    let now = utc_now();
    now.until(trigger)
}

} // verus!
