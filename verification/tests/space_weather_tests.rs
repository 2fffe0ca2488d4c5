use skycomet::space_weather::fetcher::{
    forecast_fields, has_usable_snapshot, issued_at_of, latest_kp_row, normalize_noaa_date_time,
    normalize_noaa_utc, parse_noaa_time, scale_summary, station_summary, RawScaleEntry,
    RawScaleValue,
};
use skycomet::space_weather::risk_model::{assess, RiskInputs, RiskLevel, ScaleSource};
use skycomet::space_weather::SpaceWeatherError;
use skycomet::time::UtcInstant;

/// The G level a Kp index maps to (NOAA thresholds).
fn from_kp(kp: f64) -> RiskLevel {
    if kp < 5.0 {
        RiskLevel::G0
    } else if kp < 6.0 {
        RiskLevel::G1
    } else if kp < 7.0 {
        RiskLevel::G2
    } else if kp < 8.0 {
        RiskLevel::G3
    } else if kp < 9.0 {
        RiskLevel::G4
    } else {
        RiskLevel::G5
    }
}

fn inputs(observed_at: &str, kp: Option<f64>, scale: Option<&str>) -> RiskInputs {
    RiskInputs {
        observed_at: observed_at.to_string(),
        geomagnetic_scale: scale.map(|s| s.to_string()),
        kp_level: kp.map(from_kp),
    }
}

/// 2026-05-28T12:00:00Z.
fn now() -> UtcInstant {
    UtcInstant { secs: 1_779_969_600, nanos: 0 }
}

#[test]
fn kp_thresholds_map_to_noaa_g_scale() {
    let cases = [
        (4.7, RiskLevel::G0),
        (5.0, RiskLevel::G1),
        (6.3, RiskLevel::G2),
        (7.0, RiskLevel::G3),
        (8.0, RiskLevel::G4),
        (9.0, RiskLevel::G5),
    ];
    for (kp, expected) in cases {
        let snap = inputs("2026-05-28T11:30:00Z", Some(kp), None);
        let risk = assess(Some(&snap), now());
        assert_eq!(risk.level, expected, "kp {kp}");
        assert_eq!(risk.scale_source, ScaleSource::Derived);
    }
}

#[test]
fn noaa_scale_overrides_kp_derivation() {
    let snap = inputs("2026-05-28T11:30:00Z", Some(5.0), Some("G3"));
    let risk = assess(Some(&snap), now());
    assert_eq!(risk.level, RiskLevel::G3);
    assert_eq!(risk.scale_source, ScaleSource::Noaa);
}

#[test]
fn bare_digit_noaa_scale_is_accepted() {
    let snap = inputs("2026-05-28T11:30:00Z", None, Some("0"));
    let risk = assess(Some(&snap), now());
    assert_eq!(risk.level, RiskLevel::G0);
    assert_eq!(risk.scale_source, ScaleSource::Noaa);

    let snap = inputs("2026-05-28T11:30:00Z", None, Some("3"));
    assert_eq!(assess(Some(&snap), now()).level, RiskLevel::G3);
    assert_eq!(RiskLevel::from_g_scale(" g5 "), Some(RiskLevel::G5));
    assert_eq!(RiskLevel::from_g_scale("G6"), None);
}

#[test]
fn unrecognized_scale_falls_back_to_kp() {
    let snap = inputs("2026-05-28T11:30:00Z", Some(6.0), Some("???"));
    let risk = assess(Some(&snap), now());
    assert_eq!(risk.level, RiskLevel::G2);
    assert_eq!(risk.scale_source, ScaleSource::Derived);
}

#[test]
fn no_kp_and_no_scale_is_unknown() {
    let snap = inputs("2026-05-28T11:30:00Z", None, None);
    let risk = assess(Some(&snap), now());
    assert_eq!(risk.level, RiskLevel::Unknown);
    assert_eq!(risk.scale_source, ScaleSource::Unavailable);
    assert!(!risk.stale, "fresh data must not be stale");
}

#[test]
fn stale_boundary_at_120_minutes() {
    let fresh = inputs("2026-05-28T10:01:00Z", Some(2.0), None);
    let stale = inputs("2026-05-28T09:59:00Z", Some(2.0), None);
    assert!(!assess(Some(&fresh), now()).stale);
    assert_eq!(assess(Some(&fresh), now()).age_minutes, Some(119));
    assert!(assess(Some(&stale), now()).stale);
    assert_eq!(assess(Some(&stale), now()).age_minutes, Some(121));
}

#[test]
fn small_future_clock_skew_clamps_age_to_zero() {
    let snap = inputs("2026-05-28T12:05:00Z", Some(2.0), Some("G0"));
    let risk = assess(Some(&snap), now());
    assert_eq!(risk.level, RiskLevel::G0);
    assert_eq!(risk.age_minutes, Some(0));
    assert!(!risk.stale);
}

#[test]
fn future_timestamp_beyond_tolerance_is_unknown_and_stale() {
    let snap = inputs("2026-05-28T12:05:01Z", Some(2.0), Some("G0"));
    let risk = assess(Some(&snap), now());
    assert_eq!(risk.level, RiskLevel::Unknown);
    assert_eq!(risk.scale_source, ScaleSource::Unavailable);
    assert_eq!(risk.age_minutes, None);
    assert!(risk.stale);
}

#[test]
fn missing_snapshot_is_unknown_and_stale() {
    let risk = assess(None, now());
    assert_eq!(risk.level, RiskLevel::Unknown);
    assert!(risk.stale);
    assert_eq!(risk.age_minutes, None);
}

#[test]
fn unparseable_observed_at_is_unknown_and_stale() {
    let snap = inputs("not-a-date", Some(7.0), Some("G3"));
    let risk = assess(Some(&snap), now());
    assert_eq!(risk.level, RiskLevel::Unknown);
    assert!(risk.stale);
    assert_eq!(risk.age_minutes, None);
    assert_eq!(risk.observed_at.as_deref(), Some("not-a-date"));
}

#[test]
fn risk_level_code_and_label_pairs() {
    assert_eq!(RiskLevel::G0.code(), "G0");
    assert_eq!(RiskLevel::G0.label(), "Quiet");
    assert_eq!(RiskLevel::G5.label(), "Extreme");
    assert_eq!(RiskLevel::Unknown.code(), "UNKNOWN");
}

fn value(scale: Option<&str>, text: Option<&str>) -> RawScaleValue {
    RawScaleValue { scale: scale.map(str::to_string), text: text.map(str::to_string) }
}

fn entry(date: &str, time: &str, r: &str, s: &str, g: Option<&str>, g_text: Option<&str>) -> RawScaleEntry {
    RawScaleEntry {
        date_stamp: date.to_string(),
        time_stamp: time.to_string(),
        radio_blackout: value(Some(r), Some("None")),
        radiation: value(Some(s), Some("None")),
        geomagnetic: value(g, g_text),
    }
}

#[test]
fn planetary_k_rows_normalize_to_snapshots() {
    assert_eq!(
        normalize_noaa_utc("2026-05-28T09:00:00").unwrap(),
        "2026-05-28T09:00:00+00:00"
    );
    assert_eq!(station_summary(Some(8)).as_deref(), Some("station_count=8"));
    assert_eq!(station_summary(None), None);
}

#[test]
fn empty_payloads_are_rejected_instead_of_marking_sync_successful() {
    assert!(!has_usable_snapshot(&Vec::new(), &Vec::new()));
}

#[test]
fn planetary_rows_without_kp_are_not_usable_snapshots() {
    assert!(!has_usable_snapshot(&vec![false], &vec![None]));
    assert!(!has_usable_snapshot(&vec![false], &vec![Some("?".to_string())]));
    assert!(has_usable_snapshot(&vec![false], &vec![Some("1".to_string())]));
}

#[test]
fn scales_current_and_forecasts_normalize() {
    let current = entry("2026-05-28", "1230", "0", "0", Some("1"), Some("Minor"));
    let day1 = RawScaleEntry {
        date_stamp: "2026-05-29".to_string(),
        time_stamp: "0000".to_string(),
        radio_blackout: value(Some("1"), Some("Minor radio")),
        radiation: value(Some("0"), Some("None")),
        geomagnetic: value(Some("2"), Some("Moderate geomagnetic")),
    };
    let day2 = entry("2026-05-30", "0000", "0", "1", None, None);
    let issued = issued_at_of(Some(&current), "2026-05-28T12:35:00Z");
    assert_eq!(issued, "2026-05-28T12:30:00+00:00");
    let f1 = forecast_fields(&day1, &issued).unwrap();
    assert_eq!(f1.issued_at, "2026-05-28T12:30:00+00:00");
    assert_eq!(f1.valid_from, "2026-05-29T00:00:00+00:00");
    assert_eq!(f1.valid_to, "2026-05-30T00:00:00+00:00");
    assert_eq!(f1.risk_level, "G2");
    assert_eq!(
        f1.summary,
        "R1: Minor radio; S0: None; G2: Moderate geomagnetic"
    );
    let f2 = forecast_fields(&day2, &issued).unwrap();
    assert_eq!(f2.risk_level, "G?");
    assert_eq!(scale_summary(&day2), "R0: None; S1: None; G?");
}

#[test]
fn current_scale_snapshot_carries_latest_kp() {
    let observed = vec![
        "2026-05-28T15:00:00+00:00".to_string(),
        "2026-05-28T18:00:00+00:00".to_string(),
        "2026-05-28T12:00:00+00:00".to_string(),
    ];
    assert_eq!(latest_kp_row(&observed, &vec![true, true, true]), Some(1));
    assert_eq!(latest_kp_row(&observed, &vec![true, false, true]), Some(0));
    assert_eq!(latest_kp_row(&observed, &vec![false, false, false]), None);
    let tied = vec!["a".to_string(), "a".to_string()];
    assert_eq!(latest_kp_row(&tied, &vec![true, true]), Some(1));
}

#[test]
fn scale_issue_time_falls_back_to_fetched_at_when_current_missing() {
    assert_eq!(issued_at_of(None, "2026-05-28T12:35:00Z"), "2026-05-28T12:35:00Z");
    let day1 = entry("2026-05-29", "00:00 UTC", "0", "0", Some("1"), Some("Minor"));
    let f = forecast_fields(&day1, "2026-05-28T12:35:00Z").unwrap();
    assert_eq!(f.issued_at, "2026-05-28T12:35:00Z");
    assert_eq!(f.risk_level, "G1");
    assert_eq!(f.valid_from, "2026-05-29T00:00:00+00:00");
}

#[test]
fn scales_accept_hh_mm_ss_timestamp_shape() {
    assert_eq!(
        normalize_noaa_date_time("2026-05-28", "07:37:00").unwrap(),
        "2026-05-28T07:37:00+00:00"
    );
    assert_eq!(parse_noaa_time("7").unwrap(), (7 * 3600, 0));
    assert_eq!(parse_noaa_time("730").unwrap(), (7 * 3600 + 30 * 60, 0));
    assert_eq!(parse_noaa_time("73015").unwrap(), (7 * 3600 + 30 * 60 + 15, 0));
}

#[test]
fn bad_date_and_time_stamps_report_the_field() {
    match normalize_noaa_date_time("2026-13-40", "0000") {
        Err(SpaceWeatherError::Parse(m)) => assert!(m.starts_with("date '2026-13-40': ")),
        other => panic!("unexpected {other:?}"),
    }
    match normalize_noaa_date_time("2026-05-28", "99:99") {
        Err(SpaceWeatherError::Parse(m)) => assert!(m.starts_with("time '99:99': ")),
        other => panic!("unexpected {other:?}"),
    }
}
