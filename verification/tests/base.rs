//! The built-in condition driving the appender over the modelled file set:
//! rotation by day, hour, minute, by size, and by both at once.

use rolling_file::DiskModel;
use rolling_file::RollingConditionBase;
use rolling_file::RollingFileAppenderBase;
use rolling_file::RollingFrequency;
use rolling_file::Timestamp;

struct Context {
    disk: DiskModel,
    rolling: RollingFileAppenderBase,
}

impl Context {
    fn write(&mut self, data: &[u8], t: Timestamp) {
        let n = self
            .rolling
            .write_with_datetime(&mut self.disk, &data.to_vec(), &t);
        assert_eq!(n, data.len());
    }

    fn slot_exists(&self, n: usize) -> bool {
        n < self.disk.slot_count() && self.disk.slot(n).is_some()
    }

    fn verify_contains(&mut self, needle: &str, n: usize) {
        let contents = self
            .disk
            .slot(n)
            .as_ref()
            .expect("expected the file to exist");
        let haystack = String::from_utf8(contents.clone()).unwrap();
        if !haystack.contains(needle) {
            panic!("file {} did not contain expected contents {}", n, needle);
        }
    }
}

fn build_context(condition: RollingConditionBase, max_files: usize) -> Context {
    let mut disk = DiskModel::new(max_files.max(1) + 2);
    let rolling = RollingFileAppenderBase::new("test.log".to_string(), condition, max_files, &mut disk);
    Context { disk, rolling }
}

fn ts(year: i32, month: u32, day: u32, hour: u32, minute: u32, second: u32) -> Timestamp {
    Timestamp { year, month, day, hour, minute, second }
}

#[test]
fn frequency_every_day() {
    let mut c = build_context(RollingConditionBase::new().daily(), 9);
    c.write(b"Line 1\n", ts(2021, 3, 30, 1, 2, 3));
    c.write(b"Line 2\n", ts(2021, 3, 30, 1, 3, 0));
    c.write(b"Line 3\n", ts(2021, 3, 31, 1, 4, 0));
    c.write(b"Line 4\n", ts(2021, 5, 31, 1, 4, 0));
    c.write(b"Line 5\n", ts(2022, 5, 31, 1, 4, 0));
    assert_eq!(c.slot_exists(4), false);
    c.verify_contains("Line 1", 3);
    c.verify_contains("Line 2", 3);
    c.verify_contains("Line 3", 2);
    c.verify_contains("Line 4", 1);
    c.verify_contains("Line 5", 0);
}

#[test]
fn frequency_every_day_limited_files() {
    let mut c = build_context(RollingConditionBase::new().daily(), 2);
    c.write(b"Line 1\n", ts(2021, 3, 30, 1, 2, 3));
    c.write(b"Line 2\n", ts(2021, 3, 30, 1, 3, 0));
    c.write(b"Line 3\n", ts(2021, 3, 31, 1, 4, 0));
    c.write(b"Line 4\n", ts(2021, 5, 31, 1, 4, 0));
    c.write(b"Line 5\n", ts(2022, 5, 31, 1, 4, 0));
    assert_eq!(c.slot_exists(4), false);
    assert_eq!(c.slot_exists(3), false);
    c.verify_contains("Line 3", 2);
    c.verify_contains("Line 4", 1);
    c.verify_contains("Line 5", 0);
}

#[test]
fn frequency_every_hour() {
    let mut c = build_context(RollingConditionBase::new().hourly(), 9);
    c.write(b"Line 1\n", ts(2021, 3, 30, 1, 2, 3));
    c.write(b"Line 2\n", ts(2021, 3, 30, 1, 3, 2));
    c.write(b"Line 3\n", ts(2021, 3, 30, 2, 1, 0));
    c.write(b"Line 4\n", ts(2021, 3, 31, 2, 1, 0));
    assert_eq!(c.slot_exists(3), false);
    c.verify_contains("Line 1", 2);
    c.verify_contains("Line 2", 2);
    c.verify_contains("Line 3", 1);
    c.verify_contains("Line 4", 0);
}

#[test]
fn frequency_every_minute() {
    let mut c = build_context(
        RollingConditionBase::new().frequency(RollingFrequency::EveryMinute),
        9,
    );
    c.write(b"Line 1\n", ts(2021, 3, 30, 1, 2, 3));
    c.write(b"Line 2\n", ts(2021, 3, 30, 1, 2, 3));
    c.write(b"Line 3\n", ts(2021, 3, 30, 1, 2, 4));
    c.write(b"Line 4\n", ts(2021, 3, 30, 1, 3, 0));
    c.write(b"Line 5\n", ts(2021, 3, 30, 2, 3, 0));
    c.write(b"Line 6\n", ts(2022, 3, 30, 2, 3, 0));
    assert_eq!(c.slot_exists(4), false);
    c.verify_contains("Line 1", 3);
    c.verify_contains("Line 2", 3);
    c.verify_contains("Line 3", 3);
    c.verify_contains("Line 4", 2);
    c.verify_contains("Line 5", 1);
    c.verify_contains("Line 6", 0);
}

#[test]
fn max_size() {
    let mut c = build_context(RollingConditionBase::new().max_size(10), 9);
    c.write(b"12345", ts(2021, 3, 30, 1, 2, 3));
    c.write(b"6789", ts(2021, 3, 30, 1, 3, 3));
    c.write(b"0", ts(2021, 3, 30, 2, 3, 3));
    c.write(b"abcdefghijklmn", ts(2021, 3, 31, 2, 3, 3));
    c.write(b"ZZZ", ts(2022, 3, 31, 1, 2, 3));
    assert_eq!(c.slot_exists(3), false);
    c.verify_contains("1234567890", 2);
    c.verify_contains("abcdefghijklmn", 1);
    c.verify_contains("ZZZ", 0);
}

#[test]
fn max_size_existing() {
    let mut c = build_context(RollingConditionBase::new().max_size(10), 9);
    c.write(b"12345", ts(2021, 3, 30, 1, 2, 3));
    // close the file and make sure that it can re-open it, and that it
    // resets the file size properly.
    c.rolling.writer_open = false;
    c.rolling.current_filesize = 0;
    c.write(b"6789", ts(2021, 3, 30, 1, 3, 3));
    c.write(b"0", ts(2021, 3, 30, 2, 3, 3));
    c.write(b"abcdefghijklmn", ts(2021, 3, 31, 2, 3, 3));
    c.write(b"ZZZ", ts(2022, 3, 31, 1, 2, 3));
    assert_eq!(c.slot_exists(3), false);
    c.verify_contains("1234567890", 2);
    c.verify_contains("abcdefghijklmn", 1);
    c.verify_contains("ZZZ", 0);
}

#[test]
fn daily_and_max_size() {
    let mut c = build_context(RollingConditionBase::new().daily().max_size(10), 9);
    c.write(b"12345", ts(2021, 3, 30, 1, 2, 3));
    c.write(b"6789", ts(2021, 3, 30, 2, 3, 3));
    c.write(b"0", ts(2021, 3, 31, 2, 3, 3));
    c.write(b"abcdefghijklmn", ts(2021, 3, 31, 3, 3, 3));
    c.write(b"ZZZ", ts(2021, 3, 31, 4, 4, 4));
    assert_eq!(c.slot_exists(3), false);
    c.verify_contains("123456789", 2);
    c.verify_contains("0abcdefghijklmn", 1);
    c.verify_contains("ZZZ", 0);
}
