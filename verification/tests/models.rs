use energy_kpi::error::ApiError;
use energy_kpi::models::LogLevel;
use energy_kpi::models::Pagination;
use energy_kpi::models::PingResponse;
use energy_kpi::models::TimestampFilter;
use energy_kpi::models::log_level_from_token;

#[test]
fn test_pagination_defaults() {
    let p = Pagination {
        page: None,
        per_page: None,
    };
    assert_eq!(p.get_page_or_default(), 0);
    assert_eq!(p.get_per_page_or_default(), 1000);
    assert_eq!(p.get_offset(), 0);
    let d = Pagination::default();
    assert_eq!(d.page, Some(0));
    assert_eq!(d.per_page, Some(1000));
}

#[test]
fn test_pagination_offset() {
    let p = Pagination {
        page: Some(3),
        per_page: Some(250),
    };
    assert_eq!(p.get_offset(), 750);
    let p = Pagination {
        page: Some(2),
        per_page: None,
    };
    assert_eq!(p.get_offset(), 2000);
}

#[test]
fn test_ping_response() {
    assert_eq!(PingResponse::default().message, "0xDECAFBAD");
    assert_eq!(PingResponse::new(String::from("hi")).message, "hi");
}

#[test]
fn test_timestamp_filter_resolve() {
    // both ends missing: epoch up to the caller's now
    let filter = TimestampFilter {
        from: None,
        to: None,
    };
    let range = filter.resolve(1_700_000_000_000_000);
    assert_eq!(range.from_micros, 0);
    assert_eq!(range.to_micros, 1_700_000_000_000_000);
    // given ends pass through
    let filter = TimestampFilter {
        from: Some(5),
        to: Some(10),
    };
    let range = filter.resolve(999);
    assert_eq!(range.from_micros, 5);
    assert_eq!(range.to_micros, 10);
}

#[test]
fn test_log_level_tokens() {
    assert_eq!(log_level_from_token("DEBUG"), LogLevel::Debug);
    assert_eq!(log_level_from_token("INFO"), LogLevel::Info);
    assert_eq!(log_level_from_token("WARN"), LogLevel::Warn);
    assert_eq!(log_level_from_token("ERROR"), LogLevel::Error);
    assert_eq!(log_level_from_token("TRACE"), LogLevel::Trace);
    // unknown tokens select the default level
    assert_eq!(log_level_from_token("verbose"), LogLevel::Info);
    assert_eq!(log_level_from_token(""), LogLevel::Info);
}

#[test]
fn test_error_status_codes() {
    assert_eq!(ApiError::InvalidInterval.status_code(), 400);
    assert_eq!(ApiError::NotFound.status_code(), 404);
    assert_eq!(ApiError::OutOfRange.status_code(), 422);
    assert_eq!(ApiError::StoreError.status_code(), 500);
}
