//! Space-weather risk: the NOAA geomagnetic G-scale label of the latest
//! snapshot, and whether that snapshot is stale.
use vstd::prelude::*;
use crate::text::{trim, trim_str};
use crate::time::{instant_ns, minute_ns, nanos_since_epoch, parse_rfc3339, rfc3339_instant, UtcInstant};

verus! {

/// A snapshot is stale once it is older than this many minutes.
pub const STALE_THRESHOLD_MINUTES: i64 = 120;

/// Snapshot times up to this many minutes ahead of the clock count as now;
/// further ahead they are unusable.
pub const FUTURE_CLOCK_SKEW_TOLERANCE_MINUTES: i64 = 5;

/// NOAA geomagnetic storm G-scale.
#[derive(Debug, Clone, Copy, PartialEq, Eq, Structural)]
pub enum RiskLevel {
    G0,
    G1,
    G2,
    G3,
    G4,
    G5,
    Unknown,
}

/// The NOAA code of a level.
pub open spec fn level_code(l: RiskLevel) -> Seq<char> {
    match l {
        RiskLevel::G0 => "G0"@,
        RiskLevel::G1 => "G1"@,
        RiskLevel::G2 => "G2"@,
        RiskLevel::G3 => "G3"@,
        RiskLevel::G4 => "G4"@,
        RiskLevel::G5 => "G5"@,
        RiskLevel::Unknown => "UNKNOWN"@,
    }
}

/// The operator-facing label of a level.
pub open spec fn level_label(l: RiskLevel) -> Seq<char> {
    match l {
        RiskLevel::G0 => "Quiet"@,
        RiskLevel::G1 => "Minor"@,
        RiskLevel::G2 => "Moderate"@,
        RiskLevel::G3 => "Strong"@,
        RiskLevel::G4 => "Severe"@,
        RiskLevel::G5 => "Extreme"@,
        RiskLevel::Unknown => "Unknown"@,
    }
}

/// The level a scale digit names.
pub open spec fn level_of_digit(c: char) -> Option<RiskLevel> {
    if c == '0' {
        Some(RiskLevel::G0)
    } else if c == '1' {
        Some(RiskLevel::G1)
    } else if c == '2' {
        Some(RiskLevel::G2)
    } else if c == '3' {
        Some(RiskLevel::G3)
    } else if c == '4' {
        Some(RiskLevel::G4)
    } else if c == '5' {
        Some(RiskLevel::G5)
    } else {
        None
    }
}

/// The level a NOAA scale text names: `G0`..`G5` (the `G` in either case) or
/// a bare digit `0`..`5`, ignoring surrounding whitespace.
pub open spec fn scale_level(s: Seq<char>) -> Option<RiskLevel> {
    let t = trim(s);
    let d = if t.len() > 0 && (t[0] == 'G' || t[0] == 'g') {
        t.skip(1)
    } else {
        t
    };
    if d.len() == 1 {
        level_of_digit(d[0])
    } else {
        None
    }
}

impl RiskLevel {
    /// The NOAA scale code (`G0`..`G5`, `UNKNOWN`).
    pub fn code(self) -> (s: &'static str)
        ensures
            s@ == level_code(self),
    {
        match self {
            RiskLevel::G0 => "G0",
            RiskLevel::G1 => "G1",
            RiskLevel::G2 => "G2",
            RiskLevel::G3 => "G3",
            RiskLevel::G4 => "G4",
            RiskLevel::G5 => "G5",
            RiskLevel::Unknown => "UNKNOWN",
        }
    }

    /// The operator-facing label.
    pub fn label(self) -> (s: &'static str)
        ensures
            s@ == level_label(self),
    {
        match self {
            RiskLevel::G0 => "Quiet",
            RiskLevel::G1 => "Minor",
            RiskLevel::G2 => "Moderate",
            RiskLevel::G3 => "Strong",
            RiskLevel::G4 => "Severe",
            RiskLevel::G5 => "Extreme",
            RiskLevel::Unknown => "Unknown",
        }
    }

    /// Parses a NOAA G-scale text: bare digits `0`..`5` (as the current-scales
    /// product gives them) or `G0`..`G5`; `None` when unrecognized.
    pub fn from_g_scale(scale: &str) -> (r: Option<RiskLevel>)
        ensures
            r == scale_level(scale@),
    {
        let t = trim_str(scale);
        let start: usize = if t.len() > 0 && (t[0] == 'G' || t[0] == 'g') {
            1
        } else {
            0
        };
        if t.len() - start != 1 {
            assert(t@.skip(start as int).len() != 1);
            return None;
        }
        let c = t[start];
        assert(t@.skip(start as int)[0] == c);
        if c == '0' {
            Some(RiskLevel::G0)
        } else if c == '1' {
            Some(RiskLevel::G1)
        } else if c == '2' {
            Some(RiskLevel::G2)
        } else if c == '3' {
            Some(RiskLevel::G3)
        } else if c == '4' {
            Some(RiskLevel::G4)
        } else if c == '5' {
            Some(RiskLevel::G5)
        } else {
            None
        }
    }
}

/// Which source the risk level was derived from.
#[derive(Debug, Clone, Copy, PartialEq, Eq, Structural)]
pub enum ScaleSource {
    /// The NOAA geomagnetic scale field, used directly.
    Noaa,
    /// Derived from the Kp index.
    Derived,
    /// Neither a scale nor a Kp index (or no usable snapshot).
    Unavailable,
}

/// What the assessment reads of the latest snapshot.
#[derive(Debug, Clone, PartialEq, Eq)]
pub struct RiskInputs {
    /// The snapshot's observation time, as stored (RFC 3339).
    pub observed_at: String,
    /// The NOAA geomagnetic scale text, if any.
    pub geomagnetic_scale: Option<String>,
    /// The level the snapshot's Kp index maps to, when it has one.
    pub kp_level: Option<RiskLevel>,
}

/// The assessed risk of the latest snapshot.
#[derive(Debug, Clone, PartialEq, Eq)]
pub struct RiskVerdict {
    pub level: RiskLevel,
    pub scale_source: ScaleSource,
    pub observed_at: Option<String>,
    pub age_minutes: Option<i64>,
    pub stale: bool,
}

/// The age in whole minutes of a snapshot `age_ns` old (ages at or below
/// zero count as zero).
pub open spec fn age_minutes_of(age_ns: int) -> int {
    if age_ns <= 0 {
        0
    } else {
        age_ns / minute_ns()
    }
}

/// The level and its source: a recognized NOAA scale wins, then the Kp
/// level, else unknown.
pub open spec fn level_choice(scale: Option<String>, kp_level: Option<RiskLevel>) -> (
    RiskLevel,
    ScaleSource,
) {
    match (match scale {
        Some(s) => scale_level(s@),
        None => None,
    }) {
        Some(l) => (l, ScaleSource::Noaa),
        None => match kp_level {
            Some(l) => (l, ScaleSource::Derived),
            None => (RiskLevel::Unknown, ScaleSource::Unavailable),
        },
    }
}

/// An unknown level with an unavailable scale, no age, and stale.
pub open spec fn is_unknown_verdict(v: RiskVerdict) -> bool {
    v.level == RiskLevel::Unknown && v.scale_source == ScaleSource::Unavailable && v.age_minutes
        is None && v.stale
}

/// The level and source for a snapshot's scale and Kp level.
fn choose_level(scale: &Option<String>, kp_level: Option<RiskLevel>) -> (r: (RiskLevel, ScaleSource))
    ensures
        r == level_choice(*scale, kp_level),
{
    let from_scale = match scale {
        Some(s) => RiskLevel::from_g_scale(s.as_str()),
        None => None,
    };
    match from_scale {
        Some(l) => (l, ScaleSource::Noaa),
        None => match kp_level {
            Some(l) => (l, ScaleSource::Derived),
            None => (RiskLevel::Unknown, ScaleSource::Unavailable),
        },
    }
}

/// Assesses the latest snapshot at `now`: no snapshot, an unparseable
/// observation time, or one more than the skew tolerance in the future gives
/// the cautious unknown-and-stale verdict; otherwise the level comes from
/// the NOAA scale, else the Kp level, and the snapshot is stale once older
/// than the threshold.
pub fn assess(snapshot: Option<&RiskInputs>, now: UtcInstant) -> (v: RiskVerdict)
    ensures
        snapshot is None ==> is_unknown_verdict(v) && v.observed_at is None,
        snapshot matches Some(s) ==> v.observed_at == Some(s.observed_at),
        snapshot matches Some(s) ==> match rfc3339_instant(s.observed_at@) {
            Err(_) => is_unknown_verdict(v),
            Ok((secs, nanos)) => {
                let age = instant_ns(now) - (secs * 1_000_000_000 + nanos);
                if age < -FUTURE_CLOCK_SKEW_TOLERANCE_MINUTES * minute_ns() {
                    is_unknown_verdict(v)
                } else {
                    &&& v.age_minutes == Some(age_minutes_of(age) as i64)
                    &&& v.stale == (age_minutes_of(age) > STALE_THRESHOLD_MINUTES)
                    &&& (v.level, v.scale_source) == level_choice(s.geomagnetic_scale, s.kp_level)
                }
            },
        },
{
    let s = match snapshot {
        None => {
            return RiskVerdict {
                level: RiskLevel::Unknown,
                scale_source: ScaleSource::Unavailable,
                observed_at: None,
                age_minutes: None,
                stale: true,
            };
        },
        Some(s) => s,
    };
    let unknown = RiskVerdict {
        level: RiskLevel::Unknown,
        scale_source: ScaleSource::Unavailable,
        observed_at: Some(s.observed_at.clone()),
        age_minutes: None,
        stale: true,
    };
    let observed = match parse_rfc3339(s.observed_at.as_str()) {
        Ok(t) => t,
        Err(_) => {
            return unknown;
        },
    };
    let age: i128 = nanos_since_epoch(now) - nanos_since_epoch(observed);
    if age < -(FUTURE_CLOCK_SKEW_TOLERANCE_MINUTES as i128) * 60_000_000_000 {
        return unknown;
    }
    let age_minutes: i64 = if age <= 0 {
        0
    } else {
        (age / 60_000_000_000) as i64
    };
    let (level, scale_source) = choose_level(&s.geomagnetic_scale, s.kp_level);
    RiskVerdict {
        level,
        scale_source,
        observed_at: Some(s.observed_at.clone()),
        age_minutes: Some(age_minutes),
        stale: age_minutes > STALE_THRESHOLD_MINUTES,
    }
}


/// Reading a scale is the inverse of writing a level's code: for each digit
/// `d` from 0 to 5, the text `G<d>` (with the `G` in either case, or left
/// out) reads as the level whose code is `G<d>`.
pub proof fn scale_reads_back_its_code(d: nat)
    requires
        d <= 5,
    ensures
        ({
            let digit = ((d + 48) as u32) as char;
            let code = seq!['G', digit];
            &&& scale_level(code) matches Some(l) && level_code(l) == code
            &&& scale_level(seq!['g', digit]) == scale_level(code)
            &&& scale_level(seq![digit]) == scale_level(code)
        }),
{
    let digit = ((d + 48) as u32) as char;
    let code = seq!['G', digit];
    let lower = seq!['g', digit];
    let bare = seq![digit];
    reveal_with_fuel(crate::text::lead_ws, 2);
    reveal_with_fuel(crate::text::trail_ws, 2);
    assert(!crate::text::is_ws(digit) && !crate::text::is_ws('G') && !crate::text::is_ws('g'));
    assert(crate::text::lead_ws(code) == 0 && crate::text::trail_ws(code) == 0);
    assert(crate::text::lead_ws(lower) == 0 && crate::text::trail_ws(lower) == 0);
    assert(crate::text::lead_ws(bare) == 0 && crate::text::trail_ws(bare) == 0);
    assert(trim(code) =~= code);
    assert(trim(lower) =~= lower);
    assert(trim(bare) =~= bare);
    assert(code.skip(1) =~= bare);
    assert(lower.skip(1) =~= bare);
    reveal_strlit("G0");
    reveal_strlit("G1");
    reveal_strlit("G2");
    reveal_strlit("G3");
    reveal_strlit("G4");
    reveal_strlit("G5");
    assert(level_code(level_of_digit(digit)->Some_0) =~= code);
}

} // verus!
