//! The age of the last received frame, which the liveness score decays on
//! (the score itself is floating-point and computed by the caller).
use vstd::prelude::*;
use crate::time::{instant_ns, nanos_since_epoch, parse_rfc3339, rfc3339_instant, UtcInstant};

verus! {

/// Whole seconds in `ns` nanoseconds, truncated toward zero.
pub open spec fn whole_seconds(ns: int) -> int {
    if ns >= 0 {
        ns / 1_000_000_000
    } else {
        -((-ns) / 1_000_000_000)
    }
}

/// The age in whole seconds (truncated toward zero) of the last frame at
/// `now`, or `None` when there is no frame or its time does not read.
pub fn frame_age_seconds(received_at: Option<&str>, now: UtcInstant) -> (r: Option<i64>)
    ensures
        received_at is None ==> r is None,
        received_at matches Some(t) ==> match rfc3339_instant(t@) {
            Err(_) => r is None,
            Ok(v) => r == Some(
                whole_seconds(instant_ns(now) - (v.0 * 1_000_000_000 + v.1)) as i64,
            ),
        },
{
    let text = match received_at {
        None => {
            return None;
        },
        Some(t) => t,
    };
    let received = match parse_rfc3339(text) {
        Ok(t) => t,
        Err(_) => {
            return None;
        },
    };
    let age: i128 = nanos_since_epoch(now) - nanos_since_epoch(received);
    let secs: i128 = if age >= 0 {
        age / 1_000_000_000
    } else {
        -((-age) / 1_000_000_000)
    };
    Some(secs as i64)
}

} // verus!
