use skycomet::commands::{
    catalog_sync_finish, catalog_sync_max_age_secs, catalog_sync_next, AutoTrack,
    CatalogSyncEvent, CatalogSyncNext, feasibility_str, map_catalog_err, map_profile_err, map_space_weather_err, map_sync_err,
    scale_source_str, CommandError, FeasibilityClass, SatelliteRecordDto, SerialPortDto,
};
use skycomet::profile::ProfileError;
use skycomet::tracking::TrackingError;
use skycomet::rotor::serial::{port_summary, PortKind};
use skycomet::satellite::{CatalogError, SatelliteRecord};
use skycomet::space_weather::risk_model::ScaleSource;
use skycomet::space_weather::SpaceWeatherError;
use skycomet::sync::{Dataset, SyncError, SyncOutcome};
use skycomet::time::UtcInstant;

#[test]
fn catalog_errors_map_to_codes() {
    let c = map_catalog_err(CatalogError::Network("down".into()));
    assert_eq!(c.code, "network_error");
    assert_eq!(c.message, "network error: down");
    let s = map_catalog_err(CatalogError::SnapshotSchemaMismatch { expected: 2, actual: 1 });
    assert_eq!(s.code, "snapshot_schema");
}

#[test]
fn sync_errors_map_to_codes() {
    let c = map_sync_err(SyncError::UnsupportedDataset(Dataset::Telemetry));
    assert_eq!(c.code, "unsupported_dataset");
    let d = map_sync_err(SyncError::Catalog(CatalogError::Parse("x".into())));
    assert_eq!(d.code, "catalog_error");
    assert_eq!(d.message, "catalog error: parse error: x");
}

#[test]
fn space_weather_errors_map_to_codes() {
    let c = map_space_weather_err(SpaceWeatherError::Parse("bad".into()));
    assert_eq!(c.code, "parse_error");
    assert_eq!(c.message, "parse error: bad");
}

#[test]
fn enum_labels() {
    assert_eq!(feasibility_str(FeasibilityClass::Feasible), "ok");
    assert_eq!(feasibility_str(FeasibilityClass::Impossible), "impossible");
    assert_eq!(scale_source_str(ScaleSource::Unavailable), "none");
    assert_eq!(scale_source_str(ScaleSource::Noaa), "noaa");
}

#[test]
fn dto_conversions_keep_fields() {
    let rec = SatelliteRecord {
        norad_id: 25544,
        name: "ISS".into(),
        status: Some("alive".into()),
        launched: None,
        deployed: None,
        decayed: None,
        operator: None,
        countries: None,
        satnogs_id: Some("AAAA".into()),
        updated_at: None,
    };
    let dto = SatelliteRecordDto::from(rec);
    assert_eq!(dto.norad_id, 25544);
    assert_eq!(dto.satnogs_id.as_deref(), Some("AAAA"));
    let port = SerialPortDto::from(port_summary("/dev/ttyUSB0".into(), PortKind::Usb));
    assert_eq!(port.name, "/dev/ttyUSB0");
    assert_eq!(port.kind, "usb");
}

#[test]
fn profile_errors_map_to_codes() {
    let c = map_profile_err(ProfileError::InvalidField("gain_dbi not finite".into()));
    assert_eq!(c.code, "invalid_field");
    assert_eq!(c.message, "invalid field: gain_dbi not finite");
    assert_eq!(map_profile_err(ProfileError::Db("locked".into())).code, "storage_error");
    assert_eq!(map_profile_err(ProfileError::Json("eof".into())).message, "json error: eof");
    let c: CommandError = ProfileError::NotFound.into();
    assert_eq!(c.code, "not_found");
    assert_eq!(c.message, "profile not found");
}

#[test]
fn tracking_errors_convert_with_their_code() {
    let c: CommandError = TrackingError::TleNotFound(25544).into();
    assert_eq!(c.code, "tle_not_found");
    assert_eq!(c.message, "tle not found for norad 25544");
    let c: CommandError = TrackingError::NoLocation.into();
    assert_eq!(c.code, "no_location");
    assert_eq!(c.message, "no location configured");
}

#[test]
fn auto_track_starts_unpaused() {
    let mut auto = AutoTrack::default();
    assert!(!auto.is_paused());
    auto.paused = true;
    assert!(auto.is_paused());
}

fn stamp(secs: i64) -> UtcInstant {
    UtcInstant { secs, nanos: 0 }
}

#[test]
fn catalog_sync_request_ages() {
    assert_eq!(catalog_sync_max_age_secs(None), 0);
    assert_eq!(catalog_sync_max_age_secs(Some(true)), 0);
    assert_eq!(catalog_sync_max_age_secs(Some(false)), 30 * 86400);
}

#[test]
fn catalog_leg_decides_what_follows() {
    let performed = SyncOutcome::Performed {
        dataset: Dataset::Catalog,
        fetched_at: stamp(1_779_969_600),
        satellites_written: 12,
        frequencies_written: 30,
    };
    assert_eq!(
        catalog_sync_next(Ok(performed)),
        CatalogSyncNext::RefreshTle {
            fetched_at: stamp(1_779_969_600),
            satellites_written: 12,
            frequencies_written: 30
        }
    );
    let skipped = SyncOutcome::Skipped { dataset: Dataset::Catalog, last_synced_at: stamp(1_779_969_600) };
    assert_eq!(
        catalog_sync_next(Ok(skipped)),
        CatalogSyncNext::Report(CatalogSyncEvent::Skipped {
            last_synced_at: "2026-05-28T12:00:00+00:00".to_string()
        })
    );
    let deferred = SyncOutcome::Deferred { dataset: Dataset::Catalog, last_attempted_at: stamp(0) };
    assert_eq!(
        catalog_sync_next(Ok(deferred)),
        CatalogSyncNext::Report(CatalogSyncEvent::Failed {
            code: "unexpected_sync_outcome".to_string(),
            message: "catalog sync returned a non-catalog outcome".to_string()
        })
    );
    assert_eq!(
        catalog_sync_next(Err(SyncError::Storage("disk full".into()))),
        CatalogSyncNext::Report(CatalogSyncEvent::Failed {
            code: "storage_error".to_string(),
            message: "storage error: disk full".to_string()
        })
    );
}

#[test]
fn tle_leg_finishes_the_catalog_sync() {
    let tle = SyncOutcome::TlePerformed {
        dataset: Dataset::Tle,
        fetched_at: stamp(1_779_969_700),
        tle_written: 250,
        tle_skipped: 0,
    };
    assert_eq!(
        catalog_sync_finish(stamp(1_779_969_600), 12, 30, Ok(tle)),
        (
            CatalogSyncEvent::Completed {
                fetched_at: "2026-05-28T12:00:00+00:00".to_string(),
                satellites_written: 12,
                frequencies_written: 30,
                tle_written: 250
            },
            true
        )
    );
    let other = SyncOutcome::Skipped { dataset: Dataset::Tle, last_synced_at: stamp(0) };
    assert_eq!(
        catalog_sync_finish(stamp(1_779_969_600), 1, 2, Ok(other)).0,
        CatalogSyncEvent::Completed {
            fetched_at: "2026-05-28T12:00:00+00:00".to_string(),
            satellites_written: 1,
            frequencies_written: 2,
            tle_written: 0
        }
    );
    assert_eq!(
        catalog_sync_finish(stamp(1_779_969_600), 1, 2, Err(SyncError::Storage("locked".into()))),
        (
            CatalogSyncEvent::Failed {
                code: "storage_error".to_string(),
                message: "catalog updated, TLE refresh failed: storage error: locked".to_string()
            },
            true
        )
    );
}
