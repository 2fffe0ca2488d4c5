use skycomet::location::place_label;
use skycomet::tracking::{
    active_norad_value, parse_active_norad, TrackingError, TrackingErrorEvent, TrackingState,
};

#[test]
fn tracking_state_set_and_get() {
    let mut state = TrackingState::new();
    assert_eq!(state.active(), None);
    state.set_active(Some(25544));
    assert_eq!(state.active(), Some(25544));
    state.set_active(None);
    assert_eq!(state.active(), None);
}

#[test]
fn last_active_roundtrip() {
    assert_eq!(parse_active_norad(&active_norad_value(None)), None);
    assert_eq!(active_norad_value(Some(25544)), "25544");
    assert_eq!(parse_active_norad(&active_norad_value(Some(25544))), Some(25544));
    assert_eq!(parse_active_norad("null"), None);
    assert_eq!(parse_active_norad("garbage"), None);
}

#[test]
fn tracking_errors_carry_code_and_message() {
    let e = TrackingError::TleNotFound(99999);
    assert_eq!(e.code(), "tle_not_found");
    let ev = TrackingErrorEvent::of(99999, &e);
    assert_eq!(ev.code, "tle_not_found");
    assert_eq!(ev.message, "tle not found for norad 99999");
    assert_eq!(TrackingError::NoLocation.message(), "no location configured");
}

#[test]
fn detected_place_label_joins_city_and_country() {
    assert_eq!(place_label(Some("Istanbul".into()), Some("Turkey".into())), Some("Istanbul, Turkey".to_string()));
    assert_eq!(place_label(Some("Istanbul".into()), None), Some("Istanbul".to_string()));
    assert_eq!(place_label(None, Some("Turkey".into())), Some("Turkey".to_string()));
    assert_eq!(place_label(None, None), None);
}
