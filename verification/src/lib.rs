//! A rolling file appender with customizable rolling conditions.
//! Includes built-in support for rolling conditions on date/time
//! (daily, hourly, every minute) and/or size.
//!
//! Follows a Debian-style naming convention for logfiles,
//! using basename, basename.1, ..., basename.N where N is
//! the maximum number of allowed historical logfiles.
//!
//! The rotation engine is stated and proved over [`disk::DiskModel`], a model
//! of the file set `{base, base.1, ..., base.N}` that the appender owns: each
//! slot of the model stands for the file named [`appender::RollingFileAppender::filename_for`]
//! of its index. An unverified shell that performs the real file operations
//! follows the same state machine.

use vstd::prelude::*;

pub mod appender;
pub mod base;
pub mod disk;
pub mod timestamp;

pub use appender::RollingFileAppender;
pub use base::RollingConditionBase;
pub use base::RollingFileAppenderBase;
pub use disk::DiskError;
pub use disk::DiskModel;
pub use timestamp::RollingFrequency;
pub use timestamp::Timestamp;

verus! {

/// Determines when a file should be "rolled over".
pub trait RollingCondition: Sized {
    /// Whether a condition in this state tells the appender to rotate before
    /// a write at moment `now`, with `current_filesize` bytes already in the
    /// live file.
    spec fn spec_should_rollover(self, now: Timestamp, current_filesize: u64) -> bool;

    /// The state of the condition after a decision at moment `now`: every
    /// call records `now`, whatever the decision was.
    spec fn spec_after_decision(self, now: Timestamp) -> Self;

    /// Determine and return whether or not the file should be rolled over.
    fn should_rollover(&mut self, now: &Timestamp, current_filesize: u64) -> (r: bool)
        ensures
            r == old(self).spec_should_rollover(*now, current_filesize),
            *final(self) == old(self).spec_after_decision(*now),
    ;
}

} // verus!
