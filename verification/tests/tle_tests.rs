use skycomet::tle::fetcher::{
    check_group_rejections, check_response_size, group_url, normalize_response_body, CelestrakGroup,
};
use skycomet::tle::parser::{parse_three_line_set, parse_tle};
use skycomet::tle::repo::{canonical_batches, CelestrakGroupBatch};
use skycomet::tle::validator::{compute_checksum, validate_line};
use skycomet::tle::{TleCache, TleError};

const ISS_NAME: &str = "ISS (ZARYA)";
const ISS_L1: &str = "1 25544U 98067A   24001.50000000  .00016717  00000-0  10270-3 0  9997";
const ISS_L2: &str = "2 25544  51.6400 247.4627 0006703 130.5360 325.0288 15.50000000123458";
const ISS_L2_BAD_CHECKSUM: &str =
    "2 25544  51.6400 247.4627 0006703 130.5360 325.0288 15.50000000123450";

#[test]
fn computes_checksum_correctly() {
    assert_eq!(compute_checksum(&ISS_L1[..68]), 7);
}

#[test]
fn validates_correct_lines() {
    assert!(validate_line(ISS_L1, 1).is_ok());
}

#[test]
fn rejects_wrong_length() {
    assert!(matches!(
        validate_line("1 25544", 1),
        Err(TleError::InvalidLineLength(_))
    ));
}

#[test]
fn rejects_wrong_line_number() {
    assert!(matches!(
        validate_line(ISS_L2, 1),
        Err(TleError::InvalidLineNumber { .. })
    ));
}

#[test]
fn rejects_bad_checksum() {
    let mut bad = String::from(ISS_L1);
    bad.pop();
    bad.push('0');
    assert!(matches!(
        validate_line(&bad, 1),
        Err(TleError::ChecksumMismatch { .. })
    ));
}

#[test]
fn checksum_error_reports_both_digits() {
    let mut bad = String::from(ISS_L1);
    bad.pop();
    bad.push('0');
    match validate_line(&bad, 1) {
        Err(TleError::ChecksumMismatch { line, expected, computed }) => {
            assert_eq!((line, expected, computed), (1, 0, 7));
        }
        other => panic!("unexpected {other:?}"),
    }
}

#[test]
fn parses_iss_tle() {
    let rec = parse_tle(ISS_NAME, ISS_L1, ISS_L2).unwrap();
    assert_eq!(rec.norad_id, 25544);
    assert_eq!(rec.name, "ISS (ZARYA)");
    assert_eq!(rec.epoch_year, 2024);
    assert_eq!(rec.epoch_day, "001.50000000");
}

#[test]
fn rejects_norad_mismatch() {
    let l2_bad = "2 25545  51.6400 247.4627 0006703 130.5360 325.0288 15.50000000123450";
    let result = parse_tle(ISS_NAME, ISS_L1, l2_bad);
    assert!(result.is_err());
}

#[test]
fn parses_three_line_set() {
    let text = format!("{ISS_NAME}\n{ISS_L1}\n{ISS_L2}\n");
    let parsed = parse_three_line_set(&text);
    assert_eq!(parsed.len(), 1);
    assert!(parsed[0].is_ok());
}

#[test]
fn skips_garbage_in_three_line_set() {
    let text = format!("garbage\n{ISS_NAME}\n{ISS_L1}\n{ISS_L2}\nmore garbage\n");
    let parsed = parse_three_line_set(&text);
    assert_eq!(parsed.len(), 1);
}

#[test]
fn group_query_strings() {
    assert_eq!(CelestrakGroup::Stations.as_query(), "stations");
    assert_eq!(CelestrakGroup::Amateur.as_query(), "amateur");
    assert_eq!(CelestrakGroup::Weather.as_query(), "weather");
    assert_eq!(CelestrakGroup::Visual.as_query(), "visual");
}

#[test]
fn group_source_matches_snapshot_builder_convention() {
    assert_eq!(CelestrakGroup::Stations.as_source(), "celestrak/stations");
    assert_eq!(CelestrakGroup::ALL.len(), 4);
}

#[test]
fn amateur_group_is_synced_last() {
    assert_eq!(CelestrakGroup::ALL.last(), Some(&CelestrakGroup::Amateur));
}

#[test]
fn empty_success_body_is_rejected() {
    let error = normalize_response_body(" \r\n\t").unwrap_err();
    assert!(matches!(error, TleError::InvalidCelestrakData(_)));
}

#[test]
fn html_success_body_is_rejected_even_if_it_embeds_tle_text() {
    let body =
        format!("<!doctype html><html><body>blocked</body></html>\n{ISS_NAME}\n{ISS_L1}\n{ISS_L2}");
    let error = normalize_response_body(&body).unwrap_err();
    assert!(matches!(error, TleError::InvalidCelestrakData(_)));
}

#[test]
fn body_with_zero_valid_tles_is_rejected() {
    let body = format!("{ISS_NAME}\n{ISS_L1}\n{ISS_L2_BAD_CHECKSUM}\n");
    let error = normalize_response_body(&body).unwrap_err();
    assert!(matches!(error, TleError::InvalidCelestrakData(_)));

    let error =
        normalize_response_body("GP data has not updated since your last download").unwrap_err();
    assert!(matches!(error, TleError::InvalidCelestrakData(_)));
}

#[test]
fn valid_records_survive_alongside_rejected_records() {
    let body = format!(
        "\u{feff}{ISS_NAME}\n{ISS_L1}\n{ISS_L2}\n{ISS_NAME}\n{ISS_L1}\n{ISS_L2_BAD_CHECKSUM}\n"
    );
    let outcome = normalize_response_body(&body).unwrap();
    assert_eq!(outcome.records.len(), 1);
    assert_eq!(outcome.skipped.len(), 1);
}

fn batch(group: CelestrakGroup, record_count: usize) -> CelestrakGroupBatch {
    CelestrakGroupBatch { group, record_count }
}

#[test]
fn celestrak_apply_rejects_incomplete_batches_before_writing() {
    let missing = canonical_batches(&[batch(CelestrakGroup::Stations, 1)]).unwrap_err();
    match missing {
        TleError::InvalidCelestrakData(m) => {
            assert_eq!(m, "complete sync is missing the weather group")
        }
        other => panic!("unexpected {other:?}"),
    }
    let empty = canonical_batches(&[
        batch(CelestrakGroup::Stations, 1),
        batch(CelestrakGroup::Weather, 0),
        batch(CelestrakGroup::Visual, 1),
        batch(CelestrakGroup::Amateur, 1),
    ])
    .unwrap_err();
    assert!(matches!(empty, TleError::InvalidCelestrakData(_)));
}

#[test]
fn celestrak_apply_uses_canonical_source_order() {
    let order = canonical_batches(&[
        batch(CelestrakGroup::Amateur, 3),
        batch(CelestrakGroup::Visual, 2),
        batch(CelestrakGroup::Weather, 5),
        batch(CelestrakGroup::Stations, 1),
    ])
    .unwrap();
    assert_eq!(order, vec![3, 2, 1, 0]);
}

#[test]
fn miss_then_load_then_hit() {
    let mut cache: TleCache<String> = TleCache::new();
    assert!(cache.is_empty());
    assert!(cache.get(25544).is_none());
    let generation = cache.generation();
    assert!(cache.insert_if_current(25544, "ISS".to_string(), generation));
    assert_eq!(cache.len(), 1);
    assert_eq!(cache.get(25544).map(|s| s.as_str()), Some("ISS"));
    assert_eq!(cache.len(), 1);
}

#[test]
fn invalidate_forces_reload() {
    let mut cache: TleCache<String> = TleCache::new();
    let generation = cache.generation();
    cache.insert_if_current(25544, "ISS".to_string(), generation);
    assert_eq!(cache.len(), 1);
    cache.invalidate(25544);
    assert_eq!(cache.len(), 0);
    let generation = cache.generation();
    cache.insert_if_current(25544, "ISS".to_string(), generation);
    assert_eq!(cache.len(), 1);
}

#[test]
fn invalidate_all_clears_every_entry() {
    let mut cache: TleCache<String> = TleCache::new();
    let generation = cache.generation();
    cache.insert_if_current(25544, "ISS".to_string(), generation);
    cache.insert_if_current(40069, "METEOR".to_string(), generation);
    assert_eq!(cache.len(), 2);
    cache.invalidate_all();
    assert!(cache.is_empty());
}

#[test]
fn stale_load_cannot_repopulate_cache_after_invalidation() {
    let mut cache: TleCache<String> = TleCache::new();
    let observed_generation = cache.generation();
    cache.invalidate_all();
    assert!(!cache.insert_if_current(25544, "ISS (STALE)".to_string(), observed_generation));
    assert!(cache.is_empty());
    let generation = cache.generation();
    assert!(cache.insert_if_current(25544, "ISS (UPDATED)".to_string(), generation));
    assert_eq!(cache.get(25544).map(|s| s.as_str()), Some("ISS (UPDATED)"));
    assert_eq!(cache.len(), 1);
}

#[test]
fn invalidating_a_missing_entry_still_advances_generation() {
    let mut cache: TleCache<String> = TleCache::new();
    let before = cache.generation();
    cache.invalidate(99999);
    assert_eq!(cache.generation(), before.wrapping_add(1));
}

#[test]
fn tle_error_messages_match_their_display() {
    assert_eq!(
        TleError::InvalidLineLength(7).message(),
        "invalid line length: expected 69, got 7"
    );
    assert_eq!(
        TleError::InvalidLineNumber { expected: 1, found: '2' }.message(),
        "invalid line number: line 1 expected, found '2'"
    );
}

#[test]
fn group_urls_ask_for_tle_format() {
    assert_eq!(
        group_url(CelestrakGroup::Amateur),
        "https://celestrak.org/NORAD/elements/gp.php?GROUP=amateur&FORMAT=tle"
    );
    assert_eq!(
        group_url(CelestrakGroup::Stations),
        "https://celestrak.org/NORAD/elements/gp.php?GROUP=stations&FORMAT=tle"
    );
}

#[test]
fn oversized_celestrak_response_is_refused() {
    assert!(check_response_size(2 * 1024 * 1024).is_ok());
    match check_response_size(2 * 1024 * 1024 + 1) {
        Err(TleError::Network(m)) => assert_eq!(m, "response too large: 2097153 bytes"),
        other => panic!("unexpected {other:?}"),
    }
}

#[test]
fn a_group_with_rejected_sets_fails_the_refresh() {
    assert!(check_group_rejections(CelestrakGroup::Weather, 0).is_ok());
    match check_group_rejections(CelestrakGroup::Weather, 3) {
        Err(e @ TleError::InvalidCelestrakData(_)) => {
            assert_eq!(
                e.message(),
                "invalid CelesTrak data: weather group contained 3 rejected element sets"
            );
        }
        other => panic!("unexpected {other:?}"),
    }
}

#[test]
fn any_line_number_is_checked_without_panicking_on_bad_lines() {
    assert!(matches!(validate_line("1 25544", 250), Err(TleError::InvalidLineLength(7))));
    let non_ascii = format!("{}é", &"1".repeat(67));
    assert!(matches!(
        validate_line(&non_ascii, 250),
        Err(TleError::InvalidField { .. })
    ));
}
