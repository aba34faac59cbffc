//! Unit tests: bucket truncation, decimal filenames, the rolling decision
//! on concrete values, the modelled disk errors, and the clock reading.

use rolling_file::DiskError;
use rolling_file::DiskModel;
use rolling_file::RollingCondition;
use rolling_file::RollingConditionBase;
use rolling_file::RollingFileAppenderBase;
use rolling_file::RollingFrequency;
use rolling_file::Timestamp;
use rolling_file::appender::chain_length;
use rolling_file::appender::decimal_string;
use rolling_file::appender::filename_for_base;
use rolling_file::appender::rotation_plan;
use rolling_file::timestamp::now_local;

fn moment(year: i32, month: u32, day: u32, hour: u32, minute: u32, second: u32) -> Timestamp {
    Timestamp { year, month, day, hour, minute, second }
}

#[test]
fn equivalent_datetime_truncates() {
    let t = moment(2021, 3, 30, 14, 25, 36);
    assert_eq!(
        RollingFrequency::EveryDay.equivalent_datetime(&t),
        moment(2021, 3, 30, 0, 0, 0)
    );
    assert_eq!(
        RollingFrequency::EveryHour.equivalent_datetime(&t),
        moment(2021, 3, 30, 14, 0, 0)
    );
    assert_eq!(
        RollingFrequency::EveryMinute.equivalent_datetime(&t),
        moment(2021, 3, 30, 14, 25, 0)
    );
}

#[test]
fn same_bucket_never_rolls() {
    // the first call never rolls on frequency alone and records the moment
    let mut c = RollingConditionBase::new().hourly();
    assert!(!c.should_rollover(&moment(2021, 3, 30, 1, 2, 3), 0));
    assert_eq!(c.last_write_opt, Some(moment(2021, 3, 30, 1, 2, 3)));
    // same hour: no rotation, whatever the size
    assert!(!c.should_rollover(&moment(2021, 3, 30, 1, 59, 59), u64::MAX));
    assert_eq!(c.last_write_opt, Some(moment(2021, 3, 30, 1, 59, 59)));
}

#[test]
fn changed_bucket_rolls() {
    let mut c = RollingConditionBase::new().hourly();
    c.should_rollover(&moment(2021, 3, 30, 1, 2, 3), 0);
    assert!(c.should_rollover(&moment(2021, 3, 30, 2, 0, 0), 0));
    // the rolling moment was recorded too, so the next call compares to it
    assert!(!c.should_rollover(&moment(2021, 3, 30, 2, 59, 0), 0));
}

#[test]
fn size_only_is_a_threshold() {
    let mut c = RollingConditionBase::new().max_size(10);
    assert!(!c.should_rollover(&moment(2021, 3, 30, 1, 2, 3), 9));
    assert!(c.should_rollover(&moment(2021, 3, 30, 1, 2, 3), 10));
    assert!(c.should_rollover(&moment(2099, 12, 31, 23, 59, 59), 11));
    assert!(!c.should_rollover(&moment(1999, 1, 1, 0, 0, 0), 0));
}

#[test]
fn builders_set_their_condition() {
    assert_eq!(
        RollingConditionBase::new().daily().frequency_opt,
        Some(RollingFrequency::EveryDay)
    );
    assert_eq!(
        RollingConditionBase::new().hourly().frequency_opt,
        Some(RollingFrequency::EveryHour)
    );
    assert_eq!(
        RollingConditionBase::new().minutely().frequency_opt,
        Some(RollingFrequency::EveryMinute)
    );
    let both = RollingConditionBase::new().hourly().max_size(1024 * 1024);
    assert_eq!(both.frequency_opt, Some(RollingFrequency::EveryHour));
    assert_eq!(both.max_size_opt, Some(1024 * 1024));
    assert_eq!(RollingConditionBase::new().max_size(7).frequency_opt, None);
}

#[test]
fn default_condition_is_daily() {
    let c = RollingConditionBase::default();
    assert_eq!(c.frequency_opt, Some(RollingFrequency::EveryDay));
    assert_eq!(c.max_size_opt, None);
    assert_eq!(c.last_write_opt, None);
}

#[test]
fn filenames_follow_debian_scheme() {
    let mut disk = DiskModel::new(12);
    let rolling = RollingFileAppenderBase::new(
        "test.log".to_string(),
        RollingConditionBase::new().daily(),
        9,
        &mut disk,
    );
    assert_eq!(rolling.filename_for(0), "test.log");
    assert_eq!(rolling.filename_for(1), "test.log.1");
    assert_eq!(rolling.filename_for(9), "test.log.9");
    assert_eq!(rolling.filename_for(10), "test.log.10");
}

#[test]
fn rotation_plan_lists_the_cascade() {
    assert_eq!(rotation_plan(3), vec![(2, 3), (1, 2), (0, 1)]);
    // a retention count of zero still yields a chain of length one
    assert_eq!(rotation_plan(0), vec![(0, 1)]);
    assert_eq!(chain_length(0), 1);
    assert_eq!(chain_length(9), 9);
    assert_eq!(filename_for_base("base", 0), "base");
    assert_eq!(filename_for_base("base", 3), "base.3");
}

#[test]
fn decimal_rendering() {
    assert_eq!(decimal_string(0), "0");
    assert_eq!(decimal_string(7), "7");
    assert_eq!(decimal_string(10), "10");
    assert_eq!(decimal_string(123), "123");
    assert_eq!(decimal_string(100200), "100200");
}

#[test]
fn disk_errors_have_their_inputs() {
    let mut disk = DiskModel::new(4);
    // removing a file that does not exist reports that nothing was found
    assert_eq!(disk.remove_file(1), Err(DiskError::NotFound));
    // renaming from an absent slot likewise
    assert_eq!(disk.rename(1, 2), Err(DiskError::NotFound));
    // a denied slot reports a permission failure
    let mut rolling = RollingFileAppenderBase::new(
        "base".to_string(),
        RollingConditionBase::new().daily(),
        2,
        &mut disk,
    );
    disk.set_deny_rename(0, true);
    assert_eq!(disk.rename(0, 1), Err(DiskError::PermissionDenied));
    // and a present, undenied slot renames fine
    disk.set_deny_rename(0, false);
    assert_eq!(disk.rename(0, 1), Ok(()));
    // the appender saw nothing of this: reopen and write on
    rolling.writer_open = false;
    rolling.current_filesize = 0;
    rolling.open_writer_if_needed(&mut disk);
    assert_eq!(rolling.current_filesize, 0);
}

#[test]
fn clock_reading_is_a_calendar_moment() {
    let t = now_local();
    assert!((1..=12).contains(&t.month));
    assert!((1..=31).contains(&t.day));
    assert!(t.hour < 24);
    assert!(t.minute < 60);
    assert!(t.second < 60);
}

#[test]
fn write_with_clock_appends() {
    let mut disk = DiskModel::new(4);
    let mut rolling = RollingFileAppenderBase::new(
        "base".to_string(),
        RollingConditionBase::new().max_size(1000),
        1,
        &mut disk,
    );
    let n = rolling.write(&mut disk, &b"hello".to_vec());
    assert_eq!(n, 5);
    let live = disk.slot(0).as_ref().unwrap();
    assert!(live.ends_with(b"hello"));
    // the decision call recorded the clock moment it was handed
    assert!(rolling.condition.last_write_opt.is_some());
}
