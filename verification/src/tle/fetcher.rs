//! CelesTrak groups and the validation of a fetched group body.
use vstd::prelude::*;
use crate::text::{
    chars_of, concat, contains_chars, contains_seq, decimal, owned, push_decimal, push_str,
    string_of, trim, trim_chars,
};
use super::parser::{parse_three_line_set, three_line_set_rel};
use super::{TleError, TleRecord};

verus! {

/// Pickers and the pass planner show amateur-radio satellites only until the
/// caller opts into every satellite.
pub const DEFAULT_AMATEUR_ONLY: bool = true;

/// A CelesTrak group the runtime sync refreshes.
#[derive(Debug, Clone, Copy, PartialEq, Eq, Structural)]
pub enum CelestrakGroup {
    Stations,
    Amateur,
    Weather,
    Visual,
}

/// The `GROUP` query value of a group.
pub open spec fn query_of(g: CelestrakGroup) -> Seq<char> {
    match g {
        CelestrakGroup::Stations => "stations"@,
        CelestrakGroup::Amateur => "amateur"@,
        CelestrakGroup::Weather => "weather"@,
        CelestrakGroup::Visual => "visual"@,
    }
}

/// The `source` tag stored for rows written from a group.
pub open spec fn source_of(g: CelestrakGroup) -> Seq<char> {
    "celestrak/"@ + query_of(g)
}

impl CelestrakGroup {
    /// Every refreshed group, in write order. A satellite keeps the source
    /// tag of the group written last, so `Amateur` comes last: an amateur
    /// satellite keeps its tag whatever its other memberships.
    pub const ALL: [CelestrakGroup; 4] = [
        CelestrakGroup::Stations,
        CelestrakGroup::Weather,
        CelestrakGroup::Visual,
        CelestrakGroup::Amateur,
    ];

    /// The `GROUP` query value.
    pub fn as_query(self) -> (r: &'static str)
        ensures
            r@ == query_of(self),
    {
        match self {
            CelestrakGroup::Stations => "stations",
            CelestrakGroup::Amateur => "amateur",
            CelestrakGroup::Weather => "weather",
            CelestrakGroup::Visual => "visual",
        }
    }

    /// The `source` value, `celestrak/<group>`.
    pub fn as_source(self) -> (r: String)
        ensures
            r@ == source_of(self),
    {
        concat("celestrak/", self.as_query())
    }
}

/// The write order ends with the amateur group, and lists every group
/// exactly once.
pub proof fn amateur_group_written_last()
    ensures
        CelestrakGroup::ALL@.len() == 4,
        CelestrakGroup::ALL@[3] == CelestrakGroup::Amateur,
        forall|g: CelestrakGroup| #[trigger] CelestrakGroup::ALL@.contains(g),
        forall|i: int, j: int|
            0 <= i < j < 4 ==> CelestrakGroup::ALL@[i] != CelestrakGroup::ALL@[j],
{
    assert forall|g: CelestrakGroup| #[trigger] CelestrakGroup::ALL@.contains(g) by {
        match g {
            CelestrakGroup::Stations => assert(CelestrakGroup::ALL@[0] == g),
            CelestrakGroup::Weather => assert(CelestrakGroup::ALL@[1] == g),
            CelestrakGroup::Visual => assert(CelestrakGroup::ALL@[2] == g),
            CelestrakGroup::Amateur => assert(CelestrakGroup::ALL@[3] == g),
        }
    }
}

/// The usable and rejected element sets of one fetched group.
#[derive(Debug)]
pub struct FetchOutcome {
    pub records: Vec<TleRecord>,
    pub skipped: Vec<TleError>,
}

/// `s` without its leading byte-order marks.
pub open spec fn strip_bom(s: Seq<char>) -> Seq<char>
    decreases s.len(),
{
    if s.len() > 0 && s[0] == '\u{feff}' {
        strip_bom(s.drop_first())
    } else {
        s
    }
}

/// ASCII lower-casing of one character (as `char::to_ascii_lowercase`).
pub open spec fn ascii_lower_char(c: char) -> char {
    if 'A' <= c <= 'Z' {
        ((c as u32) + 32) as char
    } else {
        c
    }
}

/// ASCII lower-casing of a text.
pub open spec fn ascii_lower(s: Seq<char>) -> Seq<char> {
    s.map_values(|c: char| ascii_lower_char(c))
}

/// Whether a trimmed body looks like an HTML page.
pub open spec fn looks_like_html(s: Seq<char>) -> bool {
    contains_seq(ascii_lower(trim(s)), "<!doctype html"@) || contains_seq(
        ascii_lower(trim(s)),
        "<html"@,
    )
}

/// The successful records of a result sequence, in order.
pub open spec fn oks(rs: Seq<Result<TleRecord, TleError>>) -> Seq<TleRecord>
    decreases rs.len(),
{
    if rs.len() == 0 {
        Seq::<TleRecord>::empty()
    } else {
        match rs[0] {
            Ok(rec) => seq![rec] + oks(rs.drop_first()),
            Err(_) => oks(rs.drop_first()),
        }
    }
}

/// The errors of a result sequence, in order.
pub open spec fn errs(rs: Seq<Result<TleRecord, TleError>>) -> Seq<TleError>
    decreases rs.len(),
{
    if rs.len() == 0 {
        Seq::<TleError>::empty()
    } else {
        match rs[0] {
            Ok(_) => errs(rs.drop_first()),
            Err(e) => seq![e] + errs(rs.drop_first()),
        }
    }
}

/// The message of a body that yielded no usable element set.
pub open spec fn no_records_message(rejected: nat) -> Seq<char> {
    if rejected == 0 {
        "response contains no complete TLE records"@
    } else {
        "response contains no valid TLE records ("@ + decimal(rejected) + " rejected)"@
    }
}

fn lower_chars(v: &Vec<char>) -> (r: Vec<char>)
    ensures
        r@ == ascii_lower(v@),
{
    let mut r: Vec<char> = Vec::new();
    for i in 0..v.len()
        invariant
            r@ == ascii_lower(v@.take(i as int)),
    {
        let c = v[i];
        let l = if 'A' <= c && c <= 'Z' {
            ((c as u32 + 32) as u8) as char
        } else {
            c
        };
        r.push(l);
        assert(ascii_lower(v@.take(i as int)).push(ascii_lower_char(v@[i as int])) =~= ascii_lower(
            v@.take(i + 1),
        ));
    }
    assert(v@.take(v.len() as int) =~= v@);
    r
}

fn strip_bom_chars(v: &Vec<char>) -> (r: Vec<char>)
    ensures
        r@ == strip_bom(v@),
{
    let mut i: usize = 0;
    assert(v@.skip(0) =~= v@);
    while i < v.len() && v[i] == '\u{feff}'
        invariant
            i <= v.len(),
            strip_bom(v@) == strip_bom(v@.skip(i as int)),
        decreases v.len() - i,
    {
        assert(v@.skip(i as int).drop_first() =~= v@.skip(i + 1));
        i = i + 1;
    }
    let mut r: Vec<char> = Vec::new();
    let mut j = i;
    while j < v.len()
        invariant
            i <= j <= v.len(),
            r@ == v@.subrange(i as int, j as int),
        decreases v.len() - j,
    {
        r.push(v[j]);
        assert(v@.subrange(i as int, j as int).push(v@[j as int]) =~= v@.subrange(i as int, j + 1));
        j = j + 1;
    }
    assert(r@ =~= v@.skip(i as int));
    r
}

fn invalid_data(message: &str) -> (e: TleError)
    ensures
        e matches TleError::InvalidCelestrakData(m) && m@ == message@,
{
    TleError::InvalidCelestrakData(owned(message))
}

/// Turns a successful CelesTrak body into validated element sets. A body that
/// is empty, is an HTML page, or holds no valid element set is an error, so
/// a sync can never be stamped for zero usable data.
pub fn normalize_response_body(body: &str) -> (r: Result<FetchOutcome, TleError>)
    ensures
        ({
            let text = strip_bom(body@);
            if trim(text).len() == 0 {
                r matches Err(TleError::InvalidCelestrakData(m)) && m@ == "response body is empty"@
            } else if looks_like_html(text) {
                r matches Err(TleError::InvalidCelestrakData(m)) && m@
                    == "response body is HTML, not TLE data"@
            } else {
                exists|parsed: Seq<Result<TleRecord, TleError>>|
                    #![trigger three_line_set_rel(text, parsed)]
                    three_line_set_rel(text, parsed) && if oks(parsed).len() == 0 {
                        r matches Err(TleError::InvalidCelestrakData(m)) && m@ == no_records_message(
                            errs(parsed).len(),
                        )
                    } else {
                        r matches Ok(o) && o.records@ == oks(parsed) && o.skipped@ == errs(parsed)
                    }
            }
        }),
{
    let raw = chars_of(body);
    let normalized = strip_bom_chars(&raw);
    let trimmed = trim_chars(&normalized);
    if trimmed.len() == 0 {
        return Err(invalid_data("response body is empty"));
    }
    let lower = lower_chars(&trimmed);
    let doctype = chars_of("<!doctype html");
    let html = chars_of("<html");
    if contains_chars(&lower, &doctype) || contains_chars(&lower, &html) {
        return Err(invalid_data("response body is HTML, not TLE data"));
    }
    let normalized_text = string_of(&normalized);
    let mut pending = parse_three_line_set(normalized_text.as_str());
    let ghost parsed = pending@;
    let mut records: Vec<TleRecord> = Vec::new();
    let mut skipped: Vec<TleError> = Vec::new();
    while pending.len() > 0
        invariant
            records@ + oks(pending@) == oks(parsed),
            skipped@ + errs(pending@) == errs(parsed),
        decreases pending.len(),
    {
        let ghost before = pending@;
        let item = pending.remove(0);
        assert(pending@ =~= before.drop_first());
        match item {
            Ok(rec) => {
                records.push(rec);
                assert(records@ + oks(pending@) =~= records@.drop_last() + oks(before));
            },
            Err(e) => {
                skipped.push(e);
                assert(skipped@ + errs(pending@) =~= skipped@.drop_last() + errs(before));
            },
        }
    }
    assert(records@ =~= oks(parsed));
    assert(skipped@ =~= errs(parsed));
    if records.len() == 0 {
        if skipped.len() == 0 {
            return Err(invalid_data("response contains no complete TLE records"));
        }
        let mut m = owned("response contains no valid TLE records (");
        push_decimal(&mut m, skipped.len() as u64);
        push_str(&mut m, " rejected)");
        return Err(TleError::InvalidCelestrakData(m));
    }
    Ok(FetchOutcome { records, skipped })
}

/// The CelesTrak GP endpoint.
pub const CELESTRAK_BASE: &'static str = "https://celestrak.org/NORAD/elements/gp.php";
/// Largest response body accepted.
pub const MAX_RESPONSE_BYTES: usize = 2097152;

/// The request URL of a group's element sets in TLE format.
pub open spec fn group_url_text(g: CelestrakGroup) -> Seq<char> {
    "https://celestrak.org/NORAD/elements/gp.php"@ + "?GROUP="@ + query_of(g) + "&FORMAT=tle"@
}

/// The request URL of a group's element sets in TLE format.
pub fn group_url(group: CelestrakGroup) -> (s: String)
    ensures
        s@ == group_url_text(group),
{
    let mut s = owned(CELESTRAK_BASE);
    push_str(&mut s, "?GROUP=");
    push_str(&mut s, group.as_query());
    push_str(&mut s, "&FORMAT=tle");
    s
}

/// Refuses a response larger than the cap (by its declared or read size).
pub fn check_response_size(len: u64) -> (r: Result<(), TleError>)
    ensures
        len <= MAX_RESPONSE_BYTES ==> r is Ok,
        len > MAX_RESPONSE_BYTES ==> (r matches Err(TleError::Network(m)) && m@
            == "response too large: "@ + decimal(len as nat) + " bytes"@),
{
    if len > MAX_RESPONSE_BYTES as u64 {
        let mut m = owned("response too large: ");
        push_decimal(&mut m, len);
        push_str(&mut m, " bytes");
        return Err(TleError::Network(m));
    }
    Ok(())
}

/// A refresh fails closed: a group with rejected element sets fails the
/// whole refresh, naming the group and the count.
pub fn check_group_rejections(group: CelestrakGroup, skipped: usize) -> (r: Result<(), TleError>)
    ensures
        skipped == 0 ==> r is Ok,
        skipped > 0 ==> (r matches Err(TleError::InvalidCelestrakData(m)) && m@ == query_of(group)
            + " group contained "@ + decimal(skipped as nat) + " rejected element sets"@),
{
    if skipped > 0 {
        let mut m = owned(group.as_query());
        push_str(&mut m, " group contained ");
        push_decimal(&mut m, skipped as u64);
        push_str(&mut m, " rejected element sets");
        return Err(TleError::InvalidCelestrakData(m));
    }
    Ok(())
}

} // verus!
