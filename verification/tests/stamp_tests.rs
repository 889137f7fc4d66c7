use irongate::stamp::timestamp;
use irongate::stamp::LogTime;

// The reference date is 2000-01-02 03:04:05: the year inference compares
// against its year and month.
fn ts(s: &str) -> LogTime {
    timestamp(s, 2000, 1).unwrap()
}

fn lt(year: i32, month: u32, day: u32, hour: u32, minute: u32, second: u32) -> LogTime {
    LogTime { year, month, day, hour, minute, second }
}

#[test]
fn timestamp_ok() {
    assert_eq!(ts("Jan  2 03:04:05"), lt(2000, 01, 02, 03, 04, 05));
    assert_eq!(ts("Jan 22 03:04:05"), lt(2000, 01, 22, 03, 04, 05));
}

#[test]
fn timestamp_relative_year() {
    assert_eq!(ts("Dec  2 03:04:05"), lt(1999, 12, 02, 03, 04, 05));
    assert_eq!(ts("Dec 31 23:23:59"), lt(1999, 12, 31, 23, 23, 59));
    assert_eq!(ts("Jan  1 00:00:00"), lt(2000, 01, 01, 00, 00, 00));
}

#[test]
fn timestamp_invalid() {
    let invalid = "Boomtime Chaos 2nd, YOLD 3166";
    assert!(timestamp(invalid, 2000, 1).is_err());
}

#[test]
fn timestamp_short_line() {
    assert!(timestamp("Jan  2", 2000, 1).is_err());
}
