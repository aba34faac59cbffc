//! Implements a rolling condition based on a certain frequency
//! and/or a size limit. The default condition is to rotate daily.

use vstd::prelude::*;

use crate::RollingCondition;
use crate::appender::RollingFileAppender;
use crate::timestamp::RollingFrequency;
use crate::timestamp::Timestamp;

verus! {

/// The built-in rolling condition: rotate when the configured time bucket
/// changes since the previous decision, or when the live file has reached a
/// configured size, or both (either alone suffices).
#[derive(Copy, Clone, Debug, PartialEq, Eq)]
pub struct RollingConditionBase {
    /// The timestamp recorded by the previous decision call, if any.
    pub last_write_opt: Option<Timestamp>,
    /// Rotate when the bucket of this frequency changes; absent means no
    /// time-based rotation.
    pub frequency_opt: Option<RollingFrequency>,
    /// Rotate when the live file holds at least this many bytes; absent
    /// means no size-based rotation.
    pub max_size_opt: Option<u64>,
}

impl RollingConditionBase {
    /// Constructs a new struct that does not yet have any condition set.
    pub fn new() -> (c: RollingConditionBase)
        ensures
            c == (RollingConditionBase {
                last_write_opt: None::<Timestamp>,
                frequency_opt: None::<RollingFrequency>,
                max_size_opt: None::<u64>,
            }),
    {
        RollingConditionBase { last_write_opt: None, frequency_opt: None, max_size_opt: None }
    }

    /// Sets a condition to rollover on the given frequency
    pub fn frequency(self, x: RollingFrequency) -> (c: RollingConditionBase)
        ensures
            c == (RollingConditionBase { frequency_opt: Some(x), ..self }),
    {
        RollingConditionBase { frequency_opt: Some(x), ..self }
    }

    /// Sets a condition to rollover when the date changes
    pub fn daily(self) -> (c: RollingConditionBase)
        ensures
            c == (RollingConditionBase {
                frequency_opt: Some(RollingFrequency::EveryDay),
                ..self
            }),
    {
        RollingConditionBase { frequency_opt: Some(RollingFrequency::EveryDay), ..self }
    }

    /// Sets a condition to rollover when the date or hour changes
    pub fn hourly(self) -> (c: RollingConditionBase)
        ensures
            c == (RollingConditionBase {
                frequency_opt: Some(RollingFrequency::EveryHour),
                ..self
            }),
    {
        RollingConditionBase { frequency_opt: Some(RollingFrequency::EveryHour), ..self }
    }

    /// Sets a condition to rollover when the date or minute changes
    pub fn minutely(self) -> (c: RollingConditionBase)
        ensures
            c == (RollingConditionBase {
                frequency_opt: Some(RollingFrequency::EveryMinute),
                ..self
            }),
    {
        RollingConditionBase { frequency_opt: Some(RollingFrequency::EveryMinute), ..self }
    }

    /// Sets a condition to rollover when a certain size is reached
    pub fn max_size(self, x: u64) -> (c: RollingConditionBase)
        ensures
            c == (RollingConditionBase { max_size_opt: Some(x), ..self }),
    {
        RollingConditionBase { max_size_opt: Some(x), ..self }
    }
}

impl Default for RollingConditionBase {
    /// The default condition rotates daily.
    fn default() -> (c: Self)
        ensures
            c == (RollingConditionBase {
                last_write_opt: None::<Timestamp>,
                frequency_opt: Some(RollingFrequency::EveryDay),
                max_size_opt: None::<u64>,
            }),
    {
        RollingConditionBase::new().frequency(RollingFrequency::EveryDay)
    }
}

impl RollingCondition for RollingConditionBase {
    /// Rotation is due when a frequency is configured, a previous timestamp
    /// was recorded, and the two fall in different buckets; or when a size
    /// threshold is configured and the live file has reached it. On the very
    /// first decision the frequency alone never triggers.
    open spec fn spec_should_rollover(self, now: Timestamp, current_filesize: u64) -> bool {
        ||| match (self.frequency_opt, self.last_write_opt) {
            (Some(frequency), Some(last_write)) => frequency.spec_equivalent_datetime(now)
                != frequency.spec_equivalent_datetime(last_write),
            _ => false,
        }
        ||| match self.max_size_opt {
            Some(max_size) => current_filesize >= max_size,
            None => false,
        }
    }

    /// Every decision records `now`, whatever it decided; nothing else moves.
    open spec fn spec_after_decision(self, now: Timestamp) -> Self {
        RollingConditionBase { last_write_opt: Some(now), ..self }
    }

    fn should_rollover(&mut self, now: &Timestamp, current_filesize: u64) -> (r: bool)
        ensures
            r == old(self).spec_should_rollover(*now, current_filesize),
            *final(self) == old(self).spec_after_decision(*now),
    {
        let mut rollover = false;
        if let Some(frequency) = self.frequency_opt.as_ref() {
            if let Some(last_write) = self.last_write_opt.as_ref() {
                if frequency.equivalent_datetime(now) != frequency.equivalent_datetime(last_write) {
                    rollover = true;
                }
            }
        }
        if let Some(max_size) = self.max_size_opt.as_ref() {
            if current_filesize >= *max_size {
                rollover = true;
            }
        }
        self.last_write_opt = Some(*now);
        rollover
    }
}

/// A rolling file appender with a rolling condition based on date/time or size.
pub type RollingFileAppenderBase = RollingFileAppender<RollingConditionBase>;

/// Law: with a frequency-only condition whose previous decision recorded
/// `t1`, a decision at any `t2` in the same bucket as `t1` never asks for
/// rotation, whatever the file size.
pub proof fn lemma_same_bucket_no_rollover(
    c: RollingConditionBase,
    f: RollingFrequency,
    t1: Timestamp,
    t2: Timestamp,
    size: u64,
)
    requires
        c.frequency_opt == Some(f),
        c.max_size_opt == None::<u64>,
        c.last_write_opt == Some(t1),
        f.spec_equivalent_datetime(t1) == f.spec_equivalent_datetime(t2),
    ensures
        !c.spec_should_rollover(t2, size),
{
}

/// Law: with a frequency configured and a previous decision that recorded
/// `t1`, a decision at any `t2` in a different bucket than `t1` asks for
/// rotation, whatever the file size and whatever size threshold is set.
pub proof fn lemma_bucket_change_rollover(
    c: RollingConditionBase,
    f: RollingFrequency,
    t1: Timestamp,
    t2: Timestamp,
    size: u64,
)
    requires
        c.frequency_opt == Some(f),
        c.last_write_opt == Some(t1),
        f.spec_equivalent_datetime(t1) != f.spec_equivalent_datetime(t2),
    ensures
        c.spec_should_rollover(t2, size),
{
}

/// Law: a size-only condition asks for rotation exactly when the live file
/// holds at least the threshold, independent of the timestamps involved.
pub proof fn lemma_size_only_rollover(c: RollingConditionBase, t: Timestamp, size: u64, max: u64)
    requires
        c.frequency_opt == None::<RollingFrequency>,
        c.max_size_opt == Some(max),
    ensures
        c.spec_should_rollover(t, size) == (size >= max),
{
}

} // verus!
