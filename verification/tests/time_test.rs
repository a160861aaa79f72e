use repo_intel_core::time::{utc_time, UtcTime};

fn t(year: u64, month: u64, day: u64, hour: u64, minute: u64, second: u64) -> UtcTime {
    UtcTime { year, month, day, hour, minute, second }
}

#[test]
fn epoch_is_1970_01_01() {
    assert_eq!(utc_time(0), t(1970, 1, 1, 0, 0, 0));
}

#[test]
fn leap_days_and_year_ends() {
    assert_eq!(utc_time(951782400), t(2000, 2, 29, 0, 0, 0));
    assert_eq!(utc_time(1704067200), t(2024, 1, 1, 0, 0, 0));
    assert_eq!(utc_time(1709210096), t(2024, 2, 29, 12, 34, 56));
    assert_eq!(utc_time(4102444799), t(2099, 12, 31, 23, 59, 59));
}
