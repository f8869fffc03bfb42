//! The time at which a commit was made, and the age of a commit in whole days.

use vstd::prelude::*;

verus! {

/// A commit time: seconds since 1970-01-01 00:00:00 UTC, and the offset from
/// UTC, in minutes, of the place where the commit was made.
#[derive(Clone, Copy, Debug, PartialEq, Eq, PartialOrd, Ord, Hash, Structural)]
pub struct CommitTime {
    pub seconds: i64,
    pub offset_minutes: i32,
}

/// The whole days from `then` to `now`, both in seconds; a fraction of a day is
/// dropped, also where `then` is the later of the two.
pub open spec fn whole_days_between(now: int, then: int) -> int {
    if now >= then {
        (now - then) / 86_400
    } else {
        -((then - now) / 86_400)
    }
}

impl CommitTime {
    /// The commit time at `seconds` after the epoch, made `offset_minutes`
    /// east of UTC.
    pub fn new(seconds: i64, offset_minutes: i32) -> (t: CommitTime)
        ensures
            t.seconds == seconds,
            t.offset_minutes == offset_minutes,
    {
        CommitTime { seconds, offset_minutes }
    }

    /// `self` is not earlier than `other`: by the seconds first, and among
    /// equal seconds by the offset.
    pub open spec fn at_or_after(self, other: CommitTime) -> bool {
        self.seconds > other.seconds || (self.seconds == other.seconds && self.offset_minutes
            >= other.offset_minutes)
    }

    /// The age of the commit at `now` (seconds since the epoch, UTC), in whole
    /// days; the age of a commit that is dated ahead of `now` is not above 0.
    pub open spec fn age_days_at(self, now: int) -> int {
        whole_days_between(now, self.seconds as int)
    }

    /// Compares two commit times as `at_or_after` states.
    pub fn is_at_or_after(&self, other: &CommitTime) -> (b: bool)
        ensures
            b == self.at_or_after(*other),
    {
        self.seconds > other.seconds || (self.seconds == other.seconds && self.offset_minutes
            >= other.offset_minutes)
    }

    /// The age of the commit in whole days at `now`.
    pub fn age_days(&self, now: i64) -> (age: i64)
        ensures
            age as int == self.age_days_at(now as int),
    {
        let now_wide: i128 = now as i128;
        let then_wide: i128 = self.seconds as i128;
        if now_wide >= then_wide {
            let span: u128 = (now_wide - then_wide) as u128;
            (span / 86_400) as i64
        } else {
            let span: u128 = (then_wide - now_wide) as u128;
            -((span / 86_400) as i64)
        }
    }
}

} // verus!
