use netsim::time_display::TimeDisplay;

#[test]
fn test_utc_display_ok() {
    let epoch_time = TimeDisplay::new(0, 0);
    let utc_epoch = epoch_time.utc_display();
    assert_eq!(utc_epoch, "1970-01-01-00-00-00");
    let twok_time = TimeDisplay::new(946684900, 0);
    let utc_twok = twok_time.utc_display();
    assert_eq!(utc_twok, "2000-01-01-00-01-40");
}

#[test]
fn test_utc_display_err() {
    let max_seconds = TimeDisplay::new(i64::MAX, 0);
    assert_eq!("INVALID-TIMESTAMP", max_seconds.utc_display());
    let max_nanos = TimeDisplay::new(0, 2_000_000_000);
    assert_eq!("INVALID-TIMESTAMP", max_nanos.utc_display());
}

#[test]
fn test_utc_display_hms() {
    let epoch_time = TimeDisplay::new(0, 0);
    let utc_epoch = epoch_time.utc_display_hms();
    assert_eq!(utc_epoch, "00:00:00");
    let twok_time = TimeDisplay::new(946684900, 0);
    let utc_twok = twok_time.utc_display_hms();
    assert_eq!(utc_twok, "00:01:40");
}

#[test]
fn test_utc_display_log() {
    let epoch_time = TimeDisplay::new(0, 0);
    let utc_epoch = epoch_time.utc_display_log();
    assert_eq!(utc_epoch, "01-01 00:00:00.0");
    let twok_time = TimeDisplay::new(946684900, 200);
    let utc_twok = twok_time.utc_display_log();
    assert_eq!(utc_twok, "01-01 00:01:40.200");
}

#[test]
fn test_utc_display_before_epoch() {
    let t = TimeDisplay::new(-1, 0);
    assert_eq!(t.utc_display(), "1969-12-31-23-59-59");
    assert_eq!(t.utc_display_hms(), "23:59:59");
}

#[test]
fn test_utc_display_invalid_hms_and_log() {
    let t = TimeDisplay::new(i64::MAX, 0);
    assert_eq!(t.utc_display_hms(), "INVALID");
    assert_eq!(t.utc_display_log(), "INVALID-TIMESTAMP");
}

#[test]
fn test_utc_display_calendar_edges() {
    // The last second of the latest year that dates reach, and the next.
    let last = 95026236i64 * 86400 + 86399;
    assert_eq!(TimeDisplay::new(last, 0).utc_display(), "262142-12-31-23-59-59");
    assert_eq!(TimeDisplay::new(last + 1, 0).utc_display(), "INVALID-TIMESTAMP");
    // The first second of the earliest year, and the one before.
    let first = -96465292i64 * 86400;
    assert_eq!(TimeDisplay::new(first, 0).utc_display(), "-262143-01-01-00-00-00");
    assert_eq!(TimeDisplay::new(first - 1, 0).utc_display(), "INVALID-TIMESTAMP");
    // A leap day, the day before the epoch, and a leap second.
    assert_eq!(TimeDisplay::new(951782400, 0).utc_display(), "2000-02-29-00-00-00");
    assert_eq!(TimeDisplay::new(-1, 0).utc_display(), "1969-12-31-23-59-59");
    assert_eq!(TimeDisplay::new(59, 1_500_000_000).utc_display_hms(), "00:00:59");
    assert_eq!(TimeDisplay::new(58, 1_500_000_000).utc_display_hms(), "INVALID");
}
