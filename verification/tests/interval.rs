use energy_kpi::error::ApiError;
use energy_kpi::interval::BucketWidth;
use energy_kpi::interval::IntervalUnit;
use energy_kpi::interval::Resampling;
use energy_kpi::interval::parse_interval;

fn resampling(s: &str) -> Resampling {
    Resampling { interval: String::from(s) }
}

#[test]
fn test_map_interval() {
    let resample = resampling("1hour");

    assert_eq!(
        resample.map_interval().unwrap(),
        BucketWidth {
            months: 0,
            days: 0,
            microseconds: 60 * 1000000 * 60
        }
    );

    let resample = resampling("30min");

    assert_eq!(
        resample.map_interval().unwrap(),
        BucketWidth {
            months: 0,
            days: 0,
            microseconds: 30 * 60 * 1000000
        }
    );

    let resample = resampling("invalid");

    assert!(resample.map_interval().is_err());
}

#[test]
fn test_bucket_width_table() {
    // one hour is 3_600_000_000 microseconds, thirty minutes half that
    assert_eq!(
        resampling("1hour").map_interval().unwrap().microseconds,
        3_600_000_000
    );
    assert_eq!(
        resampling("30min").map_interval().unwrap().microseconds,
        1_800_000_000
    );
    // days and weeks become days; months and years stay calendar months
    assert_eq!(
        resampling("2day").map_interval().unwrap(),
        BucketWidth { months: 0, days: 2, microseconds: 0 }
    );
    assert_eq!(
        resampling("3week").map_interval().unwrap(),
        BucketWidth { months: 0, days: 21, microseconds: 0 }
    );
    assert_eq!(
        resampling("5month").map_interval().unwrap(),
        BucketWidth { months: 5, days: 0, microseconds: 0 }
    );
    assert_eq!(
        resampling("2year").map_interval().unwrap(),
        BucketWidth { months: 24, days: 0, microseconds: 0 }
    );
}

#[test]
fn test_hours_per_interval() {
    // 2 months count as 2 x 730 hours = 1460.0 hours
    let minutes = resampling("2month").minutes_per_interval().unwrap();
    assert_eq!(minutes, 87_600);
    assert_eq!(minutes as f64 / 60.0, 1460.0);
    // a minute is a sixtieth of an hour
    assert_eq!(resampling("30min").minutes_per_interval().unwrap(), 30);
    assert_eq!(resampling("1hour").minutes_per_interval().unwrap(), 60);
    assert_eq!(resampling("2day").minutes_per_interval().unwrap(), 2 * 24 * 60);
    assert_eq!(resampling("1week").minutes_per_interval().unwrap(), 168 * 60);
    assert_eq!(resampling("1year").minutes_per_interval().unwrap(), 8760 * 60);
}

#[test]
fn test_invalid_interval_rejection() {
    assert_eq!(parse_interval("invalid").unwrap_err(), ApiError::InvalidInterval);
    assert_eq!(parse_interval("1decade").unwrap_err(), ApiError::InvalidInterval);
    assert_eq!(parse_interval("").unwrap_err(), ApiError::InvalidInterval);
    assert_eq!(parse_interval("hour").unwrap_err(), ApiError::InvalidInterval);
    assert_eq!(parse_interval("1 hour").unwrap_err(), ApiError::InvalidInterval);
    assert_eq!(parse_interval("1hour2").unwrap_err(), ApiError::InvalidInterval);
    assert_eq!(parse_interval("-1hour").unwrap_err(), ApiError::InvalidInterval);
}

#[test]
fn test_parse_interval_accepts_units() {
    let iv = parse_interval("15min").unwrap();
    assert_eq!(iv.count, 15);
    assert_eq!(iv.unit, IntervalUnit::Minute);
    assert_eq!(parse_interval("1hour").unwrap().unit, IntervalUnit::Hour);
    assert_eq!(parse_interval("7day").unwrap().unit, IntervalUnit::Day);
    assert_eq!(parse_interval("2week").unwrap().unit, IntervalUnit::Week);
    assert_eq!(parse_interval("6month").unwrap().unit, IntervalUnit::Month);
    assert_eq!(parse_interval("1year").unwrap().unit, IntervalUnit::Year);
}

#[test]
fn test_parse_interval_count_overflow() {
    // a count beyond the 32-bit range is rejected, not wrapped
    assert_eq!(
        parse_interval("4294967296hour").unwrap_err(),
        ApiError::InvalidInterval
    );
    // the largest representable count still parses
    assert_eq!(parse_interval("2147483647min").unwrap().count, 2147483647);
}

#[test]
fn test_map_interval_overflow() {
    // 12 x count months must fit the months field
    assert!(resampling("178956971year").map_interval().is_err());
    assert!(resampling("178956970year").map_interval().is_ok());
    assert!(resampling("306783379week").map_interval().is_err());
}

#[test]
fn test_validate_interval() {
    assert!(resampling("1hour").validate_interval());
    assert!(resampling("30min").validate_interval());
    assert!(resampling("12month").validate_interval());
    assert!(!resampling("invalid").validate_interval());
    assert!(!resampling("1decade").validate_interval());
    assert!(!resampling("1hour ").validate_interval());
    assert!(!resampling("h1our").validate_interval());
}

#[test]
fn test_canonical_string_round_trip() {
    let iv = parse_interval("0030min").unwrap();
    assert_eq!(iv.count, 30);
    // the canonical form drops leading zeros and reads back identically
    let canonical = iv.canonical_string();
    assert_eq!(canonical, "30min");
    assert_eq!(parse_interval(&canonical).unwrap(), iv);

    let iv = parse_interval("1hour").unwrap();
    assert_eq!(iv.canonical_string(), "1hour");
    assert_eq!(parse_interval("1hour").unwrap(), iv);
}

#[test]
fn test_default_interval() {
    assert_eq!(Resampling::default().interval, "1hour");
}
