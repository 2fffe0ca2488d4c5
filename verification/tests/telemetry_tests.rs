use skycomet::telemetry::decision::frame_age_seconds;
use skycomet::time::UtcInstant;
use skycomet::telemetry::decoder::{decode_ax25_callsigns_from_hex, hex_to_bytes};
use skycomet::telemetry::fetcher::{
    normalize_rows, require_token, stable_frame_external_id, RawTelemetryRow,
};
use skycomet::telemetry::TelemetryError;

fn encoded_callsign(callsign: &str, ssid: u8) -> Vec<u8> {
    let mut padded = callsign.as_bytes().to_vec();
    padded.resize(6, b' ');
    let mut out = padded.into_iter().map(|byte| byte << 1).collect::<Vec<_>>();
    out.push(ssid);
    out
}

#[test]
fn decodes_synthetic_destination_and_source_callsigns() {
    let mut bytes = encoded_callsign("APRS", 0x60);
    bytes.extend(encoded_callsign("N0CALL", 0x61));
    bytes.extend([0x03, 0xF0]);
    let frame_hex = bytes
        .iter()
        .map(|byte| format!("{byte:02X}"))
        .collect::<String>();

    let decoded = decode_ax25_callsigns_from_hex(&frame_hex).unwrap().unwrap();
    assert_eq!(decoded, ("APRS".to_string(), "N0CALL".to_string()));
}

#[test]
fn short_frame_returns_none() {
    let decoded = decode_ax25_callsigns_from_hex("82A0").unwrap();
    assert!(decoded.is_none());
}

#[test]
fn bad_hex_returns_parse_error() {
    let err = decode_ax25_callsigns_from_hex("82ZZ").unwrap_err();
    assert!(matches!(err, TelemetryError::Parse(_)));
}

#[test]
fn hex_with_whitespace_and_lowercase_decodes() {
    assert_eq!(hex_to_bytes("82 a0\nF0").unwrap(), vec![0x82, 0xA0, 0xF0]);
    assert!(matches!(hex_to_bytes("82A"), Err(TelemetryError::Parse(_))));
}

#[test]
fn fetch_requires_token_before_network() {
    assert!(matches!(require_token(None), Err(TelemetryError::AuthRequired)));
    assert!(matches!(require_token(Some("   ")), Err(TelemetryError::AuthRequired)));
    assert_eq!(require_token(Some("  abc ")).unwrap(), "abc");
}

fn row() -> RawTelemetryRow {
    RawTelemetryRow {
        id: None,
        norad_cat_id: None,
        satellite_norad_cat_id: None,
        timestamp: None,
        created: None,
        frame: None,
        frame_hex: None,
        decoded_payload: None,
        observation_id: None,
    }
}

#[test]
fn paginated_json_normalizes_to_frames() {
    let mut r = row();
    r.id = Some("42".to_string());
    r.norad_cat_id = Some(25544);
    r.timestamp = Some("2026-05-28T10:00:00Z".to_string());
    r.frame = Some("82A0A4A64040609C60868298986203F0".to_string());
    r.decoded_payload = Some("hello".to_string());
    r.observation_id = Some(1001);

    let fetch = normalize_rows(vec![r], 25544, "2026-05-28T10:05:00Z".to_string());

    assert!(fetch.observations.is_empty());
    assert_eq!(fetch.frames.len(), 1);
    let frame = &fetch.frames[0];
    assert_eq!(frame.source, "satnogs-db");
    assert_eq!(frame.external_id, "42");
    assert_eq!(frame.observation_id, Some(1001));
    assert_eq!(frame.norad_id, 25544);
    assert_eq!(frame.payload_text.as_deref(), Some("hello"));
    assert_eq!(frame.decoded_callsign.as_deref(), Some("N0CALL>APRS"));
}

#[test]
fn bare_list_json_normalizes_with_fallbacks() {
    let mut r = row();
    r.satellite_norad_cat_id = Some(40069);
    r.created = Some("2026-05-28T11:00:00Z".to_string());
    r.frame_hex = Some("82A0A4A64040609C60868298986203F0".to_string());
    r.decoded_payload = Some("world".to_string());

    let fetch = normalize_rows(vec![r], 25544, "2026-05-28T11:05:00Z".to_string());

    assert_eq!(fetch.frames.len(), 1);
    let frame = &fetch.frames[0];
    assert_eq!(frame.norad_id, 40069);
    assert!(frame.external_id.starts_with("norad:40069:received:"));
    assert_eq!(frame.received_at, "2026-05-28T11:00:00Z");
    assert_eq!(frame.created_at, "2026-05-28T11:05:00Z");
    assert_eq!(frame.payload_text.as_deref(), Some("world"));
}

#[test]
fn rows_without_time_or_frame_are_dropped_in_order() {
    let mut keep_a = row();
    keep_a.id = Some("a".to_string());
    keep_a.timestamp = Some("t1".to_string());
    keep_a.frame = Some("00".to_string());
    let mut drop = row();
    drop.id = Some("x".to_string());
    drop.frame = Some("00".to_string());
    let mut keep_b = row();
    keep_b.id = Some("b".to_string());
    keep_b.created = Some("t2".to_string());
    keep_b.frame_hex = Some("11".to_string());
    let fetch = normalize_rows(vec![keep_a, drop, keep_b], 7, "now".to_string());
    let ids: Vec<&str> = fetch.frames.iter().map(|f| f.external_id.as_str()).collect();
    assert_eq!(ids, vec!["a", "b"]);
    assert_eq!(fetch.frames[0].norad_id, 7);
    assert!(fetch.frames[0].decoded_callsign.is_none());
}

#[test]
fn stable_external_id_concatenates_its_parts() {
    assert_eq!(
        stable_frame_external_id(-5, "2026", "AB"),
        "norad:-5:received:2026:frame:AB"
    );
}

#[test]
fn frame_age_counts_whole_seconds_since_the_last_frame() {
    let now = UtcInstant { secs: 1_704_110_400, nanos: 0 };
    assert_eq!(frame_age_seconds(None, now), None);
    assert_eq!(frame_age_seconds(Some("not a time"), now), None);
    assert_eq!(frame_age_seconds(Some("2024-01-01T12:00:00Z"), now), Some(0));
    assert_eq!(frame_age_seconds(Some("2024-01-01T11:00:00Z"), now), Some(3600));
    assert_eq!(frame_age_seconds(Some("2023-12-31T12:00:00.75Z"), now), Some(86_399));
    assert_eq!(frame_age_seconds(Some("2024-01-01T12:00:01.5Z"), now), Some(-1));
}

fn aprs_frame_hex() -> String {
    let mut bytes = encoded_callsign("APRS", 0x60);
    bytes.extend(encoded_callsign("N0CALL", 0x61));
    bytes.iter().map(|byte| format!("{byte:02x}")).collect::<String>()
}

#[test]
fn whitespace_and_letter_case_do_not_change_a_frame() {
    let plain = aprs_frame_hex();
    let spaced = plain
        .as_bytes()
        .chunks(2)
        .map(|pair| std::str::from_utf8(pair).unwrap())
        .collect::<Vec<_>>()
        .join(" \n");
    let upper = plain.to_uppercase();
    let expected = Some(("APRS".to_string(), "N0CALL".to_string()));
    assert_eq!(decode_ax25_callsigns_from_hex(&plain).unwrap(), expected);
    assert_eq!(decode_ax25_callsigns_from_hex(&spaced).unwrap(), expected);
    assert_eq!(decode_ax25_callsigns_from_hex(&upper).unwrap(), expected);
    assert_eq!(hex_to_bytes("aB 0f").unwrap(), hex_to_bytes("AB0F").unwrap());
    for text in ["82 zz", "82zz"] {
        match decode_ax25_callsigns_from_hex(text) {
            Err(TelemetryError::Parse(m)) => assert_eq!(m, "invalid hex digit 'z'"),
            other => panic!("unexpected {other:?}"),
        }
    }
}

#[test]
fn appended_digits_keep_the_callsigns() {
    let frame = aprs_frame_hex();
    let longer = format!("{frame}03F0deadBEEF");
    assert_eq!(
        decode_ax25_callsigns_from_hex(&longer).unwrap(),
        Some(("APRS".to_string(), "N0CALL".to_string()))
    );
}
