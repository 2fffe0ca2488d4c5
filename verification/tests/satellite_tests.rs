use skycomet::satellite::satnogs::{
    check_body_size, classify_status, exhausted_error, next_delay, retries_after,
    validate_catalog_fetch, CatalogFetch, RawSatellite, RawTransmitter, ResponseClass,
    CATALOG_MIN_FREQUENCY_RECORDS, CATALOG_MIN_SATELLITE_RECORDS,
};
use skycomet::satellite::snapshot::{
    check_schema_version, group_by_source, plan_seed, seed_epoch, seed_outcome,
    tle_to_catalog_err, SeedOutcome, SeedPlan, TleSeedRecord,
};
use skycomet::tle::TleError;
use skycomet::satellite::{CatalogError, FrequencyRecord, SatelliteRecord};

fn raw_satellite(norad: Option<i64>) -> RawSatellite {
    RawSatellite {
        norad_cat_id: norad,
        name: Some("X".into()),
        status: None,
        launched: None,
        deployed: None,
        decayed: None,
        operator: None,
        countries: None,
        sat_id: None,
        updated: None,
    }
}

#[test]
fn raw_satellite_normalize_rejects_missing_norad() {
    let raw = raw_satellite(None);
    assert!(raw.normalize().is_none());
}

#[test]
fn raw_satellite_normalize_rejects_out_of_range_norad() {
    assert!(raw_satellite(Some(0)).normalize().is_none());
    assert!(raw_satellite(Some(4_294_967_296)).normalize().is_none());
    assert_eq!(raw_satellite(Some(4_294_967_295)).normalize().unwrap().norad_id, u32::MAX);
}

#[test]
fn raw_satellite_normalize_round_trip() {
    let raw = RawSatellite {
        norad_cat_id: Some(25544),
        name: Some("ISS (ZARYA)".into()),
        status: Some("alive".into()),
        launched: Some("1998-11-20T00:00:00Z".into()),
        deployed: None,
        decayed: None,
        operator: Some("NASA".into()),
        countries: Some("US,RU".into()),
        sat_id: Some("AAAA".into()),
        updated: Some("2026-01-01T00:00:00Z".into()),
    };
    let rec = raw.normalize().unwrap();
    assert_eq!(rec.norad_id, 25544);
    assert_eq!(rec.name, "ISS (ZARYA)");
    assert_eq!(rec.satnogs_id.as_deref(), Some("AAAA"));
}

#[test]
fn raw_transmitter_normalize_keeps_null_uplink() {
    let raw = RawTransmitter {
        norad_cat_id: Some(25544),
        uplink_low: None,
        uplink_high: None,
        downlink_low: Some(145_990_000),
        downlink_high: None,
        mode: Some("FM".into()),
        description: Some("Voice".into()),
        status: Some("active".into()),
        updated: None,
    };
    let rec = raw.normalize().unwrap();
    assert_eq!(rec.norad_id, 25544);
    assert_eq!(rec.uplink_low_hz, None);
    assert_eq!(rec.downlink_low_hz, Some(145_990_000));
}

fn satellite() -> SatelliteRecord {
    SatelliteRecord {
        norad_id: 25544,
        name: "ISS".to_owned(),
        status: Some("alive".to_owned()),
        launched: None,
        deployed: None,
        decayed: None,
        operator: None,
        countries: None,
        satnogs_id: None,
        updated_at: None,
    }
}

fn frequency() -> FrequencyRecord {
    FrequencyRecord {
        norad_id: 25544,
        uplink_low_hz: None,
        uplink_high_hz: None,
        downlink_low_hz: Some(145_800_000),
        downlink_high_hz: None,
        mode: Some("FM".to_owned()),
        description: None,
        status: Some("active".to_owned()),
        updated_at: None,
    }
}

#[test]
fn catalog_fetch_rejects_zero_usable_records() {
    let empty = validate_catalog_fetch(CatalogFetch {
        satellites: Vec::new(),
        frequencies: Vec::new(),
    });
    match empty {
        Err(CatalogError::Parse(m)) => assert_eq!(
            m,
            "SatNOGS response contained only 0 usable satellites; expected at least 1000"
        ),
        other => panic!("unexpected {other:?}"),
    }

    let satellite_only = validate_catalog_fetch(CatalogFetch {
        satellites: vec![satellite()],
        frequencies: Vec::new(),
    });
    assert!(matches!(satellite_only, Err(CatalogError::Parse(_))));
}

#[test]
fn catalog_fetch_accepts_completeness_floor() {
    let result = validate_catalog_fetch(CatalogFetch {
        satellites: vec![satellite(); CATALOG_MIN_SATELLITE_RECORDS],
        frequencies: vec![frequency(); CATALOG_MIN_FREQUENCY_RECORDS],
    });
    assert!(result.is_ok());
}

#[test]
fn parse_rejects_wrong_schema_version() {
    let err = check_schema_version(99).unwrap_err();
    assert!(matches!(
        err,
        CatalogError::SnapshotSchemaMismatch { expected: 2, actual: 99 }
    ));
    assert_eq!(
        err.message(),
        "snapshot schema mismatch: expected version 2, got 99"
    );
}

#[test]
fn parse_rejects_v1_snapshot() {
    let err = check_schema_version(1).unwrap_err();
    assert!(matches!(
        err,
        CatalogError::SnapshotSchemaMismatch { expected: 2, actual: 1 }
    ));
    assert!(check_schema_version(2).is_ok());
}

#[test]
fn seed_if_empty_skips_when_both_populated() {
    assert_eq!(plan_seed(2, 1, true), SeedPlan::Skip);
    assert_eq!(seed_outcome(SeedPlan::Skip, 9, 9, 9), SeedOutcome::Skipped);
}

#[test]
fn seed_if_empty_fills_only_tle_when_catalog_already_present() {
    let plan = plan_seed(2, 0, true);
    assert_eq!(plan, SeedPlan::Seed { catalog: false, tle: true });
    assert_eq!(
        seed_outcome(plan, 2, 1, 1),
        SeedOutcome::Seeded { satellites: 0, frequencies: 0, tle: 1 }
    );
}

#[test]
fn seed_if_empty_populates_catalog_tle_and_records_timestamp() {
    let plan = plan_seed(0, 0, true);
    assert_eq!(plan, SeedPlan::Seed { catalog: true, tle: true });
    assert_eq!(
        seed_outcome(plan, 2, 1, 1),
        SeedOutcome::Seeded { satellites: 2, frequencies: 1, tle: 1 }
    );
    assert_eq!(plan_seed(0, 0, false), SeedPlan::Seed { catalog: true, tle: false });
}

fn seed_record(norad: u32, epoch: &str, source: &str) -> TleSeedRecord {
    TleSeedRecord {
        norad_id: norad,
        name: format!("SAT {norad}"),
        line1: String::new(),
        line2: String::new(),
        epoch: epoch.to_string(),
        source: source.to_string(),
    }
}

#[test]
fn seed_records_are_grouped_by_source_in_order() {
    let entries = vec![
        seed_record(1, "2024-01-01T00:00:00Z", "celestrak:weather"),
        seed_record(2, "2024-01-01T00:00:00Z", "celestrak:amateur"),
        seed_record(3, "2024-01-01T00:00:00Z", "celestrak:weather"),
        seed_record(4, "2024-01-01T00:00:00Z", "celestrak:cubesat"),
        seed_record(5, "2024-01-01T00:00:00Z", "celestrak:amateur"),
    ];
    let groups = group_by_source(&entries);
    let sources: Vec<&str> = groups.iter().map(|g| g.source.as_str()).collect();
    assert_eq!(sources, vec!["celestrak:amateur", "celestrak:cubesat", "celestrak:weather"]);
    assert_eq!(groups[0].members, vec![1, 4]);
    assert_eq!(groups[1].members, vec![3]);
    assert_eq!(groups[2].members, vec![0, 2]);
    assert!(group_by_source(&Vec::new()).is_empty());
}

#[test]
fn seed_epoch_reads_rfc3339_and_names_bad_text() {
    let ok = seed_epoch(&seed_record(25544, "2024-01-01T12:00:00Z", "s")).unwrap();
    assert_eq!(ok.secs, 1_704_110_400);
    assert_eq!(ok.nanos, 0);
    let offset = seed_epoch(&seed_record(1, "2024-01-01T13:30:00.5+01:30", "s")).unwrap();
    assert_eq!(offset.secs, 1_704_110_400);
    assert_eq!(offset.nanos, 500_000_000);
    match seed_epoch(&seed_record(7, "yesterday", "s")) {
        Err(CatalogError::Parse(m)) => {
            assert!(m.starts_with("tle seed epoch 'yesterday' for norad 7: "), "{m}");
        }
        other => panic!("unexpected {other:?}"),
    }
}

#[test]
fn tle_errors_while_seeding_keep_storage_failures() {
    assert_eq!(
        tle_to_catalog_err(TleError::Storage("disk full".into())),
        CatalogError::Storage("disk full".into())
    );
    assert_eq!(
        tle_to_catalog_err(TleError::NoradIdMismatch),
        CatalogError::Parse("tle seed: norad id mismatch between line1 and line2".into())
    );
}

#[test]
fn response_status_classes() {
    assert_eq!(classify_status(200), ResponseClass::Success);
    assert_eq!(classify_status(299), ResponseClass::Success);
    assert_eq!(classify_status(429), ResponseClass::Retryable);
    assert_eq!(classify_status(500), ResponseClass::Retryable);
    assert_eq!(classify_status(503), ResponseClass::Retryable);
    assert_eq!(classify_status(404), ResponseClass::Permanent);
    assert_eq!(classify_status(301), ResponseClass::Permanent);
    assert_eq!(classify_status(600), ResponseClass::Permanent);
}

#[test]
fn oversized_catalog_body_is_refused() {
    assert!(check_body_size(32 * 1024 * 1024).is_ok());
    assert_eq!(
        check_body_size(32 * 1024 * 1024 + 1),
        Err(CatalogError::Network("response too large: 33554433 bytes".into()))
    );
}

#[test]
fn backoff_doubles_and_stops_after_five_retries() {
    assert_eq!(next_delay(1000), 2000);
    assert_eq!(next_delay(u64::MAX / 2 + 1), u64::MAX);
    assert!(retries_after(0));
    assert!(retries_after(4));
    assert!(!retries_after(5));
    assert_eq!(
        exhausted_error(Some("HTTP 503".into())),
        CatalogError::Network("exhausted 5 retries; last error: HTTP 503".into())
    );
    assert_eq!(
        exhausted_error(None),
        CatalogError::Network("exhausted 5 retries; last error: unknown".into())
    );
}
