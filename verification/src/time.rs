//! Instants on the UTC time line and the pauses between them.

use vstd::prelude::*;

verus! {

/// Nanoseconds in one second.
pub const NANOS_PER_SECOND: u32 = 1_000_000_000;

/// An instant: `seconds` whole seconds after the Unix epoch and `nanos`
/// nanoseconds after that.
#[derive(Clone, Copy, Debug, PartialEq, Eq, Structural)]
pub struct Timestamp {
    /// Whole seconds since 1970-01-01T00:00:00Z.
    pub seconds: i64,
    /// Nanoseconds after the whole second.
    pub nanos: u32,
}

impl View for Timestamp {
    type V = Timestamp;

    open spec fn view(&self) -> Timestamp {
        *self
    }
}

/// A length of time to wait: `seconds` whole seconds and `nanos`
/// nanoseconds, the latter below one second.
#[derive(Clone, Copy, Debug, PartialEq, Eq, Structural)]
pub struct Pause {
    /// Whole seconds.
    pub seconds: u64,
    /// Nanoseconds beyond the whole seconds.
    pub nanos: u32,
}

impl Pause {
    /// The length of the pause in nanoseconds.
    pub open spec fn total_nanos(self) -> int {
        self.seconds * 1_000_000_000 + self.nanos
    }

    /// The longest pause that can be expressed.
    pub open spec fn longest() -> Pause {
        Pause { seconds: u64::MAX, nanos: 999_999_999 }
    }

    /// The pause of `nanos` nanoseconds, cut down to the longest pause where
    /// it is longer than that.
    pub open spec fn of_nanos(nanos: int) -> Pause {
        if nanos > Self::longest().total_nanos() {
            Self::longest()
        } else {
            Pause { seconds: (nanos / 1_000_000_000) as u64, nanos: (nanos % 1_000_000_000) as u32 }
        }
    }
}

impl Timestamp {
    /// The instant as nanoseconds since the Unix epoch.
    pub open spec fn instant(self) -> int {
        self.seconds * 1_000_000_000 + self.nanos
    }

    /// Whether `self` is strictly earlier than `other`.
    pub open spec fn precedes(self, other: Timestamp) -> bool {
        self.instant() < other.instant()
    }

    /// The instant `seconds` seconds later, held at the last representable
    /// second where the sum would pass it.
    pub open spec fn later_by(self, seconds: u32) -> Timestamp {
        Timestamp {
            seconds: if self.seconds + seconds > i64::MAX {
                i64::MAX
            } else {
                (self.seconds + seconds) as i64
            },
            nanos: self.nanos,
        }
    }

    /// The time to wait at `self` until `trigger` is reached: nothing when
    /// `trigger` is not in the future.
    pub open spec fn pause_until(self, trigger: Timestamp) -> Option<Pause> {
        if self.precedes(trigger) {
            Some(Pause::of_nanos(trigger.instant() - self.instant()))
        } else {
            None
        }
    }

    /// Tests whether `self` is strictly earlier than `other`.
    pub fn is_before(&self, other: &Timestamp) -> (earlier: bool)
        ensures
            earlier == self.precedes(*other),
    {
        let a: i128 = (self.seconds as i128) * 1_000_000_000 + (self.nanos as i128);
        let b: i128 = (other.seconds as i128) * 1_000_000_000 + (other.nanos as i128);
        a < b
    }

    /// Moves the instant `seconds` seconds into the future.
    pub fn plus_seconds(&self, seconds: u32) -> (later: Timestamp)
        ensures
            later == self.later_by(seconds),
    {
        let room: i64 = i64::MAX - (seconds as i64);
        if self.seconds > room {
            Timestamp { seconds: i64::MAX, nanos: self.nanos }
        } else {
            Timestamp { seconds: self.seconds + (seconds as i64), nanos: self.nanos }
        }
    }

    /// Computes how long to wait at `self` until `trigger`.
    pub fn until(&self, trigger: &Timestamp) -> (pause: Option<Pause>)
        ensures
            pause == self.pause_until(*trigger),
            pause matches Some(p) ==> p.nanos < NANOS_PER_SECOND,
    {
        let a: i128 = (self.seconds as i128) * 1_000_000_000 + (self.nanos as i128);
        let b: i128 = (trigger.seconds as i128) * 1_000_000_000 + (trigger.nanos as i128);
        if a < b {
            let gap: i128 = b - a;
            let whole: i128 = gap / 1_000_000_000;
            let part: i128 = gap % 1_000_000_000;
            if whole > (u64::MAX as i128) {
                Some(Pause { seconds: u64::MAX, nanos: 999_999_999 })
            } else {
                Some(Pause { seconds: whole as u64, nanos: part as u32 })
            }
        } else {
            None
        }
    }
}

/// Reads the clock through `chrono::Utc::now` and hands back the seconds and
/// the sub-second nanoseconds of that instant. Nothing is claimed of the
/// value: it is whatever the clock says.
#[verifier::external_body]
pub(crate) fn utc_now() -> (now: Timestamp) {
    let now = chrono::Utc::now();
    Timestamp { seconds: now.timestamp(), nanos: now.timestamp_subsec_nanos() }
}

} // verus!
