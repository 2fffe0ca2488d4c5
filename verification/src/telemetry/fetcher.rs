//! Normalization of SatNOGS telemetry rows into frames to store.
use vstd::prelude::*;
use crate::text::{
    decimal_int, owned, push_decimal_signed, push_str, string_of,
    trim, trim_str,
};
use super::decoder::{callsign_of, decode_ax25_callsigns_from_hex, hex_frame};
use super::{TelemetryError, TelemetryFrameInput, TelemetryObservationInput};

verus! {

/// Source tag of frames fetched from SatNOGS DB.
pub const SOURCE: &'static str = "satnogs-db";

/// Normalized result of one telemetry fetch.
#[derive(Debug, Clone, PartialEq, Eq)]
pub struct TelemetryFetch {
    pub observations: Vec<TelemetryObservationInput>,
    pub frames: Vec<TelemetryFrameInput>,
    pub fetched_at: String,
}

/// The fields of one SatNOGS telemetry row that normalization reads, taken
/// out of the JSON row (an id given as text or number is kept as its text).
#[derive(Debug, Clone)]
pub struct RawTelemetryRow {
    pub id: Option<String>,
    pub norad_cat_id: Option<i64>,
    pub satellite_norad_cat_id: Option<i64>,
    pub timestamp: Option<String>,
    pub created: Option<String>,
    pub frame: Option<String>,
    pub frame_hex: Option<String>,
    pub decoded_payload: Option<String>,
    pub observation_id: Option<i64>,
}

/// The identifier of a frame that carries none of its own.
pub open spec fn stable_id(norad_id: int, received_at: Seq<char>, frame_hex: Seq<char>) -> Seq<char> {
    "norad:"@ + decimal_int(norad_id) + ":received:"@ + received_at + ":frame:"@ + frame_hex
}

/// A deterministic identifier from the NORAD id, reception time and frame.
pub fn stable_frame_external_id(norad_id: i64, received_at: &str, frame_hex: &str) -> (s: String)
    ensures
        s@ == stable_id(norad_id as int, received_at@, frame_hex@),
{
    let mut s = owned("norad:");
    push_decimal_signed(&mut s, norad_id);
    push_str(&mut s, ":received:");
    push_str(&mut s, received_at);
    push_str(&mut s, ":frame:");
    push_str(&mut s, frame_hex);
    s
}

/// The SatNOGS token to send: the trimmed token, required non-empty.
pub fn require_token(token: Option<&str>) -> (r: Result<String, TelemetryError>)
    ensures
        match token {
            None => r matches Err(TelemetryError::AuthRequired),
            Some(t) => if trim(t@).len() == 0 {
                r matches Err(TelemetryError::AuthRequired)
            } else {
                r matches Ok(s) && s@ == trim(t@)
            },
        },
{
    match token {
        None => Err(TelemetryError::AuthRequired),
        Some(t) => {
            let trimmed = trim_str(t);
            if trimmed.len() == 0 {
                Err(TelemetryError::AuthRequired)
            } else {
                Ok(string_of(&trimmed))
            }
        },
    }
}

/// The NORAD id a row is attributed to: its own, else its satellite's, else
/// the id the fetch was made for.
pub open spec fn row_norad(row: RawTelemetryRow, fallback: i64) -> i64 {
    match row.norad_cat_id {
        Some(n) => n,
        None => match row.satellite_norad_cat_id {
            Some(n) => n,
            None => fallback,
        },
    }
}

/// Reception time of a row: its timestamp, else its creation time.
pub open spec fn row_received(row: RawTelemetryRow) -> Option<String> {
    match row.timestamp {
        Some(t) => Some(t),
        None => row.created,
    }
}

/// Frame text of a row: `frame`, else `frame_hex`.
pub open spec fn row_frame(row: RawTelemetryRow) -> Option<String> {
    match row.frame {
        Some(f) => Some(f),
        None => row.frame_hex,
    }
}

/// Whether a row yields a frame: it needs a reception time and frame text.
pub open spec fn row_kept(row: RawTelemetryRow) -> bool {
    row_received(row) is Some && row_frame(row) is Some
}

/// The `SOURCE>DESTINATION` label of a frame's AX.25 addresses, if decodable.
pub open spec fn callsign_label(frame: Seq<char>) -> Option<Seq<char>> {
    match hex_frame(frame) {
        Ok(b) => if b.len() >= 14 {
            Some(callsign_of(b.subrange(7, 14)) + ">"@ + callsign_of(b.subrange(0, 7)))
        } else {
            None
        },
        Err(_) => None,
    }
}

/// Whether `f` is the frame normalized from a kept row.
pub open spec fn frame_from_row(
    row: RawTelemetryRow,
    fallback: i64,
    fetched_at: Seq<char>,
    f: TelemetryFrameInput,
) -> bool {
    let norad = row_norad(row, fallback);
    let received = row_received(row)->Some_0;
    let frame = row_frame(row)->Some_0;
    &&& f.source@ == "satnogs-db"@
    &&& f.external_id@ == match row.id {
        Some(id) => id@,
        None => stable_id(norad as int, received@, frame@),
    }
    &&& f.observation_id == row.observation_id
    &&& f.norad_id == norad
    &&& f.received_at == received
    &&& f.frame_hex == frame
    &&& match callsign_label(frame@) {
        Some(label) => f.decoded_callsign matches Some(c) && c@ == label,
        None => f.decoded_callsign is None,
    }
    &&& f.payload_text == row.decoded_payload
    &&& f.created_at@ == fetched_at
}

impl RawTelemetryRow {
    /// The frame a row normalizes to, or `None` when it lacks a reception
    /// time or frame text.
    pub fn normalize(self, fallback_norad_id: i64, fetched_at: &str) -> (r: Option<TelemetryFrameInput>)
        ensures
            row_kept(self) ==> (r matches Some(f) && frame_from_row(self, fallback_norad_id, fetched_at@, f)),
            !row_kept(self) ==> r is None,
    {
        let ghost row = self;
        let norad_id = match self.norad_cat_id {
            Some(n) => n,
            None => match self.satellite_norad_cat_id {
                Some(n) => n,
                None => fallback_norad_id,
            },
        };
        let received_at = match self.timestamp {
            Some(t) => t,
            None => match self.created {
                Some(c) => c,
                None => return None,
            },
        };
        let frame_hex = match self.frame {
            Some(f) => f,
            None => match self.frame_hex {
                Some(f) => f,
                None => return None,
            },
        };
        let external_id = match self.id {
            Some(id) => id,
            None => stable_frame_external_id(norad_id, received_at.as_str(), frame_hex.as_str()),
        };
        let decoded_callsign = match decode_ax25_callsigns_from_hex(frame_hex.as_str()) {
            Ok(Some((destination, source))) => {
                let mut label = owned(source.as_str());
                push_str(&mut label, ">");
                push_str(&mut label, destination.as_str());
                Some(label)
            },
            Ok(None) => None,
            Err(_) => None,
        };
        let source = owned(SOURCE);
        let created_at = owned(fetched_at);
        assert(source@ == "satnogs-db"@);
        assert(norad_id == row_norad(row, fallback_norad_id));
        assert(received_at == row_received(row)->Some_0);
        assert(frame_hex == row_frame(row)->Some_0);
        assert(match callsign_label(frame_hex@) {
            Some(label) => decoded_callsign matches Some(c) && c@ == label,
            None => decoded_callsign is None,
        });
        Some(
            TelemetryFrameInput {
                source,
                external_id,
                observation_id: self.observation_id,
                norad_id,
                received_at,
                frame_hex,
                decoded_callsign,
                payload_text: self.decoded_payload,
                created_at,
            },
        )
    }
}

/// Number of kept rows among `rows`.
pub open spec fn kept_count(rows: Seq<RawTelemetryRow>) -> nat
    decreases rows.len(),
{
    if rows.len() == 0 {
        0
    } else {
        kept_count(rows.drop_last()) + if row_kept(rows.last()) {
            1nat
        } else {
            0nat
        }
    }
}

/// Whether `frames` are the frames of the kept rows of `rows`, in row order:
/// frame `k` comes from row `origin[k]`, and origins strictly increase.
pub open spec fn frames_follow(
    rows: Seq<RawTelemetryRow>,
    fallback: i64,
    fetched_at: Seq<char>,
    frames: Seq<TelemetryFrameInput>,
    origin: Seq<int>,
) -> bool {
    &&& origin.len() == frames.len()
    &&& forall|k: int|
        0 <= k < origin.len() ==> 0 <= #[trigger] origin[k] < rows.len() && row_kept(rows[origin[k]])
    &&& forall|k: int|
        0 <= k < origin.len() ==> frame_from_row(
            rows[origin[k]],
            fallback,
            fetched_at,
            #[trigger] frames[k],
        )
    &&& forall|a: int, b: int| 0 <= a < b < origin.len() ==> origin[a] < origin[b]
}

/// Normalizes fetched rows: one frame per kept row, in row order.
pub fn normalize_rows(rows: Vec<RawTelemetryRow>, fallback_norad_id: i64, fetched_at: String) -> (r:
    TelemetryFetch)
    ensures
        r.observations@.len() == 0,
        r.fetched_at == fetched_at,
        r.frames@.len() == kept_count(rows@),
        exists|origin: Seq<int>|
            frames_follow(rows@, fallback_norad_id, fetched_at@, r.frames@, origin),
{
    let ghost all = rows@;
    let mut pending = rows;
    let mut frames: Vec<TelemetryFrameInput> = Vec::new();
    let ghost mut origin: Seq<int> = Seq::empty();
    let ghost mut taken: int = 0;
    while pending.len() > 0
        invariant
            0 <= taken <= all.len(),
            pending@ == all.skip(taken),
            frames@.len() == kept_count(all.take(taken)),
            frames_follow(all, fallback_norad_id, fetched_at@, frames@, origin),
            forall|k: int| 0 <= k < origin.len() ==> #[trigger] origin[k] < taken,
            all == rows@,
        decreases pending.len(),
    {
        let row = pending.remove(0);
        assert(row == all[taken]);
        assert(pending@ =~= all.skip(taken + 1));
        assert(all.take(taken + 1).drop_last() =~= all.take(taken));
        assert(all.take(taken + 1).last() == all[taken]);
        let ghost old_frames = frames@;
        let ghost old_origin = origin;
        let ghost row_g = row;
        let normalized = row.normalize(fallback_norad_id, fetched_at.as_str());
        match normalized {
            Some(f) => {
                let ghost fg = f;
                assert(row_kept(row_g));
                frames.push(f);
                proof {
                    origin = origin.push(taken);
                    assert(frames@[old_frames.len() as int] == fg);
                    assert(origin[old_origin.len() as int] == taken);
                    assert forall|k: int| 0 <= k < origin.len() implies row_kept(
                        all[origin[k]],
                    ) && frame_from_row(
                        all[origin[k]],
                        fallback_norad_id,
                        fetched_at@,
                        #[trigger] frames@[k],
                    ) by {
                        if k < old_origin.len() {
                            assert(frames@[k] == old_frames[k]);
                            assert(origin[k] == old_origin[k]);
                        }
                    }
                    assert forall|a: int, b: int| 0 <= a < b < origin.len() implies origin[a]
                        < origin[b] by {
                        assert(origin[a] == old_origin[a]);
                        if b < old_origin.len() {
                            assert(origin[b] == old_origin[b]);
                        }
                    }
                    assert forall|k: int| 0 <= k < origin.len() implies 0 <= #[trigger] origin[k]
                        < all.len() && origin[k] < taken + 1 && row_kept(all[origin[k]]) by {
                        if k < old_origin.len() {
                            assert(origin[k] == old_origin[k]);
                        }
                    }
                    assert(origin.len() == frames@.len());
                    assert(frames_follow(all, fallback_norad_id, fetched_at@, frames@, origin));
                }
            },
            None => {
                assert(frames_follow(all, fallback_norad_id, fetched_at@, frames@, origin));
            },
        }
        proof {
            taken = taken + 1;
        }
    }
    assert(all.take(taken) =~= all);
    assert(frames_follow(all, fallback_norad_id, fetched_at@, frames@, origin));
    TelemetryFetch { observations: Vec::new(), frames, fetched_at }
}

} // verus!
