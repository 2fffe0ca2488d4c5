use skycomet::sync::{
    auto_sync_plan, freshness_plan, is_stale, manual_retry_plan, manual_skip, parse_stored_timestamp,
    request_evidence, retry_is_deferred, retry_plan, validate_catalog_relative_count, Dataset,
    SyncError, SyncPlan, SPACE_WEATHER_MAX_AGE_HOURS, SPACE_WEATHER_RETRY_BACKOFF_MINUTES,
    SYNC_FUTURE_TOLERANCE_MINUTES, TLE_MAX_AGE_HOURS,
};
use skycomet::satellite::CatalogError;
use skycomet::time::UtcInstant;

const NOW: i64 = 1_779_969_600;

fn at(secs: i64) -> UtcInstant {
    UtcInstant { secs, nanos: 0 }
}

fn minutes(m: i64) -> i64 {
    m * 60
}

fn hours(h: i64) -> i64 {
    h * 3600
}

fn days(d: i64) -> i64 {
    d * 86_400
}

#[test]
fn last_synced_key_is_stable() {
    assert_eq!(Dataset::Catalog.last_synced_key(), "sync_catalog_last_at");
    assert_eq!(Dataset::Telemetry.last_synced_key(), "sync_telemetry_last_at");
    assert_eq!(Dataset::SpaceWeather.last_synced_key(), "sync_space_weather_last_at");
    assert_eq!(Dataset::Tle.last_synced_key(), "sync_tle_last_at");
    assert_eq!(
        Dataset::SpaceWeather.last_attempted_key(),
        "sync_space_weather_last_attempt_at"
    );
    assert_eq!(Dataset::Tle.last_error_key(), "sync_tle_last_error");
}

#[test]
fn dataset_event_names_and_support() {
    assert_eq!(Dataset::SpaceWeather.event_name(), "space_weather");
    assert!(!Dataset::Telemetry.supports_sync());
    assert!(Dataset::Tle.supports_sync());
}

#[test]
fn is_stale_true_when_never_synced() {
    assert!(is_stale(None, at(NOW), days(30)));
}

#[test]
fn is_stale_false_for_recent_sync() {
    assert!(!is_stale(Some(at(NOW)), at(NOW), days(30)));
}

#[test]
fn is_stale_true_for_old_sync() {
    assert!(is_stale(Some(at(NOW - days(100))), at(NOW), days(30)));
}

#[test]
fn far_future_sync_timestamp_is_stale() {
    let future = at(NOW + minutes(SYNC_FUTURE_TOLERANCE_MINUTES + 1));
    assert!(is_stale(Some(future), at(NOW), hours(2)));
}

#[test]
fn small_future_clock_skew_is_tolerated() {
    let future = at(NOW + minutes(SYNC_FUTURE_TOLERANCE_MINUTES - 1));
    assert!(!is_stale(Some(future), at(NOW), hours(2)));
}

#[test]
fn tle_is_stale_past_max_age() {
    let old = at(NOW - hours(TLE_MAX_AGE_HOURS + 1));
    assert!(is_stale(Some(old), at(NOW), hours(TLE_MAX_AGE_HOURS)));
}

#[test]
fn invalid_stored_timestamp_surfaces_error() {
    let err = parse_stored_timestamp("not-a-date").unwrap_err();
    assert!(matches!(err, SyncError::InvalidTimestamp { .. }));
    assert!(err.message().starts_with("invalid stored timestamp 'not-a-date': "));
}

#[test]
fn record_then_read_round_trip() {
    let t = parse_stored_timestamp("2026-05-27T10:00:00Z").unwrap();
    assert_eq!(t, UtcInstant { secs: 1_779_876_000, nanos: 0 });
}

#[test]
fn catalog_relative_count_rejects_large_partial_drop() {
    assert!(validate_catalog_relative_count("satellites", 799, 1_000).is_err());
    assert!(validate_catalog_relative_count("satellites", 800, 1_000).is_ok());
    assert!(validate_catalog_relative_count("satellites", 1_000, 0).is_ok());
}

#[test]
fn partial_drop_message_names_both_counts() {
    match validate_catalog_relative_count("frequencies", 10, 4_900) {
        Err(SyncError::Catalog(CatalogError::Parse(m))) => assert_eq!(
            m,
            "SatNOGS frequencies count dropped from 4900 to 10; refusing a likely partial full-dump response"
        ),
        other => panic!("unexpected {other:?}"),
    }
    assert!(validate_catalog_relative_count("satellites", 0, -5).is_ok());
}

#[test]
fn sync_if_needed_skips_when_fresh() {
    let plan = freshness_plan(Some(at(NOW)), at(NOW), days(30));
    assert_eq!(plan, SyncPlan::Skip { last_synced_at: at(NOW) });
}

#[test]
fn sync_if_needed_skips_tle_when_fresh() {
    let plan = freshness_plan(Some(at(NOW)), at(NOW), hours(TLE_MAX_AGE_HOURS));
    assert!(matches!(plan, SyncPlan::Skip { .. }));
}

#[test]
fn sync_if_needed_skips_space_weather_when_fresh() {
    let plan = freshness_plan(Some(at(NOW)), at(NOW), hours(SPACE_WEATHER_MAX_AGE_HOURS));
    assert!(matches!(plan, SyncPlan::Skip { .. }));
}

#[test]
fn recent_failed_attempt_defers_automatic_retry() {
    let old = at(NOW - hours(TLE_MAX_AGE_HOURS + 1));
    assert_eq!(freshness_plan(Some(old), at(NOW), hours(TLE_MAX_AGE_HOURS)), SyncPlan::Attempt);
    let attempted_at = at(NOW);
    assert_eq!(
        retry_plan(Dataset::Tle, Some(attempted_at), at(NOW)),
        SyncPlan::Defer { last_attempted_at: attempted_at }
    );
    assert_eq!(retry_plan(Dataset::Tle, None, at(NOW)), SyncPlan::Attempt);
}

#[test]
fn manual_tle_refresh_honors_provider_cadence_without_attempt_metadata() {
    let synced_at = at(NOW);
    assert_eq!(
        manual_retry_plan(Dataset::Tle, None, Some(synced_at), at(NOW)),
        SyncPlan::Defer { last_attempted_at: synced_at }
    );
    assert_eq!(
        manual_retry_plan(Dataset::Catalog, None, Some(synced_at), at(NOW)),
        SyncPlan::Attempt
    );
    assert_eq!(request_evidence(Some(at(5)), Some(at(9))), Some(at(9)));
}

#[test]
fn waited_manual_request_is_answered_by_the_sync_it_waited_for() {
    assert_eq!(manual_skip(true, Some(at(NOW + 1)), at(NOW)), Some(at(NOW + 1)));
    assert_eq!(manual_skip(true, Some(at(NOW - 1)), at(NOW)), None);
    assert_eq!(manual_skip(false, Some(at(NOW + 1)), at(NOW)), None);
}

#[test]
fn space_weather_retry_backoff_allows_next_periodic_check() {
    let eleven_minutes_ago = at(NOW - minutes(SPACE_WEATHER_RETRY_BACKOFF_MINUTES + 1));
    assert!(!retry_is_deferred(Dataset::SpaceWeather, eleven_minutes_ago, at(NOW)));
    assert!(retry_is_deferred(Dataset::Tle, eleven_minutes_ago, at(NOW)));
}

#[test]
fn sync_if_needed_rejects_telemetry_until_fetcher_exists() {
    let err = SyncError::UnsupportedDataset(Dataset::Telemetry);
    assert_eq!(
        err.message(),
        "dataset Telemetry is not supported by sync_if_needed yet"
    );
}

#[test]
fn automatic_sync_skips_defers_or_attempts() {
    let max_age = TLE_MAX_AGE_HOURS * 3600;
    assert_eq!(
        auto_sync_plan(Dataset::Tle, Some(at(NOW - 600)), Some(at(NOW - 60)), at(NOW), max_age),
        SyncPlan::Skip { last_synced_at: at(NOW - 600) }
    );
    assert_eq!(
        auto_sync_plan(Dataset::Tle, Some(at(NOW - 3 * 3600)), Some(at(NOW - 60)), at(NOW), max_age),
        SyncPlan::Defer { last_attempted_at: at(NOW - 60) }
    );
    assert_eq!(
        auto_sync_plan(Dataset::Tle, None, Some(at(NOW - 3 * 3600)), at(NOW), max_age),
        SyncPlan::Attempt
    );
    assert_eq!(auto_sync_plan(Dataset::Catalog, None, None, at(NOW), 0), SyncPlan::Attempt);
}
