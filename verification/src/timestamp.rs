//! Wall-clock timestamps broken into calendar components, and the rolling
//! frequencies that bucket them.
//!
//! Bucket truncation assumes a single consistent time-zone interpretation
//! across the lifetime of one appender: every timestamp handed in is read as
//! local wall-clock time, and mixing zones between calls is a caller error.

use vstd::prelude::*;

use chrono::Datelike;
use chrono::Timelike;

verus! {

/// A wall-clock moment in local time, broken into its calendar components.
#[derive(Clone, Copy, Debug, PartialEq, Eq, Structural)]
pub struct Timestamp {
    pub year: i32,
    pub month: u32,
    pub day: u32,
    pub hour: u32,
    pub minute: u32,
    pub second: u32,
}

impl Timestamp {
    /// The component ranges of a real calendar moment.
    pub open spec fn wf(self) -> bool {
        &&& 1 <= self.month <= 12
        &&& 1 <= self.day <= 31
        &&& self.hour < 24
        &&& self.minute < 60
        &&& self.second < 60
    }
}

/// Determines how often a file should be rolled over.
#[derive(Copy, Clone, Debug, Eq, PartialEq, Structural)]
pub enum RollingFrequency {
    EveryDay,
    EveryHour,
    EveryMinute,
}

impl RollingFrequency {
    /// The canonical bucket of `dt` for this frequency: the components finer
    /// than the frequency are truncated to zero, the rest are kept. Two
    /// timestamps belong to the same bucket exactly when their truncations
    /// are equal.
    pub open spec fn spec_equivalent_datetime(self, dt: Timestamp) -> Timestamp {
        match self {
            RollingFrequency::EveryDay => Timestamp { hour: 0, minute: 0, second: 0, ..dt },
            RollingFrequency::EveryHour => Timestamp { minute: 0, second: 0, ..dt },
            RollingFrequency::EveryMinute => Timestamp { second: 0, ..dt },
        }
    }

    /// Calculates a datetime that will be different if data should be in
    /// different files.
    pub fn equivalent_datetime(&self, dt: &Timestamp) -> (r: Timestamp)
        ensures
            r == self.spec_equivalent_datetime(*dt),
    {
        match self {
            RollingFrequency::EveryDay => Timestamp { hour: 0, minute: 0, second: 0, ..*dt },
            RollingFrequency::EveryHour => Timestamp { minute: 0, second: 0, ..*dt },
            RollingFrequency::EveryMinute => Timestamp { second: 0, ..*dt },
        }
    }
}

/// Reads the current moment from the system clock, in the local time zone.
///
/// Relies on chrono's `Local::now` and its `Datelike`/`Timelike` accessors:
/// chrono documents `month` as 1..=12, `day` as 1..=31, `hour` as 0..24, and
/// `minute` and `second` as 0..60 (a leap second is carried in the
/// sub-second field, never here). Nothing more is assumed of the reading:
/// consecutive calls may return anything within those ranges. chrono's
/// `now` aborts the process when the system clock reads before the Unix
/// epoch or outside chrono's representable range; that is environmental —
/// this function has no input whose exclusion could prevent it.
#[verifier::external_body]
pub fn now_local() -> (t: Timestamp)
    ensures
        t.wf(),
{
    let now = chrono::Local::now();
    Timestamp {
        year: now.year(),
        month: now.month(),
        day: now.day(),
        hour: now.hour(),
        minute: now.minute(),
        second: now.second(),
    }
}

} // verus!
