use balabol::time::millis_of_reading;
use balabol::logger::{format_timestamp, log_line, RecentLogs, RECENT_LOG_CAPACITY};

#[test]
fn timestamps_are_zero_padded_time_of_day() {
    assert_eq!(format_timestamp(0, 0), "00:00:00.000");
    assert_eq!(format_timestamp(3600 * 25 + 61, 7), "01:01:01.007");
    assert_eq!(format_timestamp(86399, 999), "23:59:59.999");
}

#[test]
fn log_lines_are_laid_out() {
    assert_eq!(log_line("12:00:00.000", "INFO", "hello"), "[12:00:00.000] [INFO] hello");
}

#[test]
fn recent_logs_keep_the_last_lines() {
    let mut logs = RecentLogs::new();
    for i in 0..(RECENT_LOG_CAPACITY + 5) {
        logs.push(format!("line {}", i));
    }
    let recent = logs.recent();
    assert_eq!(recent.len(), RECENT_LOG_CAPACITY);
    assert_eq!(recent[0], "line 5");
    assert_eq!(recent[RECENT_LOG_CAPACITY - 1], format!("line {}", RECENT_LOG_CAPACITY + 4));
}

#[test]
fn clock_readings_become_milliseconds() {
    assert_eq!(millis_of_reading(None), 0);
    assert_eq!(millis_of_reading(Some(1_700_000_000_123)), 1_700_000_000_123);
    assert_eq!(millis_of_reading(Some((1u128 << 64) + 5)), 5);
}
