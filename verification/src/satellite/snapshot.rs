//! The bundled catalog snapshot: its schema guard and the rule of which
//! tables a first launch seeds from it.
use vstd::prelude::*;
use crate::text::{
    chars_of, decimal, lemma_text_before_total,
    lemma_text_before_transitive, owned, push_decimal, push_str, seq_equal, string_of, text_before,
    text_less,
};
use crate::time::{parse_rfc3339, rfc3339_instant, UtcInstant};
use crate::tle::{tle_error_text, TleError};
use super::{CatalogError, FrequencyRecord, SatelliteRecord};

verus! {

/// The snapshot schema this build reads.
pub const SNAPSHOT_SCHEMA_VERSION: u32 = 2;

/// Accepts only snapshots of the current schema version.
pub fn check_schema_version(actual: u32) -> (r: Result<(), CatalogError>)
    ensures
        actual == SNAPSHOT_SCHEMA_VERSION ==> r is Ok,
        actual != SNAPSHOT_SCHEMA_VERSION ==> r == Err::<(), CatalogError>(
            CatalogError::SnapshotSchemaMismatch { expected: SNAPSHOT_SCHEMA_VERSION, actual },
        ),
{
    if actual != SNAPSHOT_SCHEMA_VERSION {
        return Err(CatalogError::SnapshotSchemaMismatch { expected: SNAPSHOT_SCHEMA_VERSION, actual });
    }
    Ok(())
}

/// The result of seeding from the snapshot.
#[derive(Debug, Clone, Copy, PartialEq, Eq, Structural)]
pub enum SeedOutcome {
    /// Both the catalog and the TLE tables were populated; nothing seeded.
    Skipped,
    /// At least one branch ran; a count is 0 for a branch that did not.
    Seeded { satellites: usize, frequencies: usize, tle: usize },
}

/// Which tables to seed.
#[derive(Debug, Clone, Copy, PartialEq, Eq, Structural)]
pub enum SeedPlan {
    /// Both tables already hold rows.
    Skip,
    /// Seed the catalog (and stamp its sync time) and/or the TLE table.
    Seed { catalog: bool, tle: bool },
}

/// Chooses what to seed: each table independently when empty, the TLE table
/// only when the snapshot carries element sets.
pub fn plan_seed(satellite_count: i64, tle_count: i64, snapshot_has_tle: bool) -> (p: SeedPlan)
    ensures
        satellite_count != 0 && tle_count != 0 ==> p == SeedPlan::Skip,
        !(satellite_count != 0 && tle_count != 0) ==> p == (SeedPlan::Seed {
            catalog: satellite_count == 0,
            tle: tle_count == 0 && snapshot_has_tle,
        }),
{
    let catalog_empty = satellite_count == 0;
    let tle_empty = tle_count == 0;
    if !catalog_empty && !tle_empty {
        return SeedPlan::Skip;
    }
    SeedPlan::Seed { catalog: catalog_empty, tle: tle_empty && snapshot_has_tle }
}

/// The outcome reported for a plan and the counts its branches wrote (a
/// branch that did not run reports 0).
pub fn seed_outcome(plan: SeedPlan, satellites: usize, frequencies: usize, tle: usize) -> (o:
    SeedOutcome)
    ensures
        plan == SeedPlan::Skip ==> o == SeedOutcome::Skipped,
        plan matches SeedPlan::Seed { catalog, tle: t } ==> o == (SeedOutcome::Seeded {
            satellites: if catalog {
                satellites
            } else {
                0
            },
            frequencies: if catalog {
                frequencies
            } else {
                0
            },
            tle: if t {
                tle
            } else {
                0
            },
        }),
{
    match plan {
        SeedPlan::Skip => SeedOutcome::Skipped,
        SeedPlan::Seed { catalog, tle: t } => SeedOutcome::Seeded {
            satellites: if catalog {
                satellites
            } else {
                0
            },
            frequencies: if catalog {
                frequencies
            } else {
                0
            },
            tle: if t {
                tle
            } else {
                0
            },
        },
    }
}

/// Seeding is idempotent: once both tables hold rows, a second launch seeds
/// nothing; and a table that holds rows is never reseeded.
pub proof fn seeding_never_overwrites(satellite_count: i64, tle_count: i64, has_tle: bool)
    ensures
        satellite_count != 0 && tle_count != 0 ==> seed_choice(satellite_count, tle_count, has_tle)
            == SeedPlan::Skip,
        seed_choice(satellite_count, tle_count, has_tle) matches SeedPlan::Seed { catalog, tle } ==> (
        catalog ==> satellite_count == 0) && (tle ==> tle_count == 0),
{
}

/// The plan `plan_seed` returns.
pub open spec fn seed_choice(satellite_count: i64, tle_count: i64, has_tle: bool) -> SeedPlan {
    if satellite_count != 0 && tle_count != 0 {
        SeedPlan::Skip
    } else {
        SeedPlan::Seed { catalog: satellite_count == 0, tle: tle_count == 0 && has_tle }
    }
}

/// One element set packed in the snapshot, with its epoch as RFC 3339 text.
#[derive(Debug, Clone, PartialEq, Eq)]
pub struct TleSeedRecord {
    pub norad_id: u32,
    pub name: String,
    pub line1: String,
    pub line2: String,
    pub epoch: String,
    pub source: String,
}

/// The bundled catalog snapshot.
#[derive(Debug, Clone)]
pub struct Snapshot {
    pub schema_version: u32,
    pub fetched_at: String,
    pub source: String,
    pub license: String,
    pub satellites: Vec<SatelliteRecord>,
    pub frequencies: Vec<FrequencyRecord>,
    pub tle: Vec<TleSeedRecord>,
}

/// Reads the epoch of a packed element set; one that does not read names the
/// text and the satellite.
pub fn seed_epoch(entry: &TleSeedRecord) -> (r: Result<UtcInstant, CatalogError>)
    ensures
        match rfc3339_instant(entry.epoch@) {
            Ok(v) => r matches Ok(t) && t.secs == v.0 && t.nanos == v.1,
            Err(e) => r matches Err(CatalogError::Parse(m)) && m@ == "tle seed epoch '"@
                + entry.epoch@ + "' for norad "@ + decimal(entry.norad_id as nat) + ": "@ + e,
        },
{
    match parse_rfc3339(entry.epoch.as_str()) {
        Ok(t) => Ok(t),
        Err(e) => {
            let mut m = owned("tle seed epoch '");
            push_str(&mut m, entry.epoch.as_str());
            push_str(&mut m, "' for norad ");
            push_decimal(&mut m, entry.norad_id as u64);
            push_str(&mut m, ": ");
            push_str(&mut m, e.as_str());
            Err(CatalogError::Parse(m))
        },
    }
}

/// A TLE failure during seeding: storage failures stay storage failures,
/// anything else is a parse failure of the seed.
pub fn tle_to_catalog_err(err: TleError) -> (e: CatalogError)
    ensures
        match err {
            TleError::Storage(s) => e == CatalogError::Storage(s),
            other => e matches CatalogError::Parse(m) && m@ == "tle seed: "@ + tle_error_text(other),
        },
{
    match err {
        TleError::Storage(s) => CatalogError::Storage(s),
        other => {
            let mut m = owned("tle seed: ");
            push_str(&mut m, other.message().as_str());
            CatalogError::Parse(m)
        },
    }
}

/// The element sets of one source, by their positions in the snapshot.
#[derive(Debug, Clone, PartialEq, Eq)]
pub struct SourceGroup {
    pub source: String,
    pub members: Vec<usize>,
}

/// The source texts of the packed element sets.
pub open spec fn seed_sources(entries: Seq<TleSeedRecord>) -> Seq<Seq<char>> {
    entries.map_values(|e: TleSeedRecord| e.source@)
}

/// Whether `keys` are strictly increasing in text order.
pub open spec fn strictly_sorted(keys: Seq<Seq<char>>) -> bool {
    forall|a: int, b: int| 0 <= a < b < keys.len() ==> text_before(#[trigger] keys[a], #[trigger] keys[b])
}

/// Whether `members` are exactly the positions whose source is `key`, in
/// increasing order, and there is at least one.
pub open spec fn members_exact(src: Seq<Seq<char>>, key: Seq<char>, members: Seq<usize>) -> bool {
    &&& members.len() > 0
    &&& forall|a: int, b: int| 0 <= a < b < members.len() ==> #[trigger] members[a] < #[trigger] members[b]
    &&& forall|q: int| 0 <= q < members.len() ==> #[trigger] members[q] < src.len() && src[members[q] as int] == key
    &&& forall|i: int| 0 <= i < src.len() && #[trigger] src[i] == key ==> members.contains(i as usize)
}

/// The source texts of the groups.
pub open spec fn group_sources(groups: Seq<SourceGroup>) -> Seq<Seq<char>> {
    groups.map_values(|g: SourceGroup| g.source@)
}

/// Whether `groups` partition the element sets by source: one group per
/// distinct source, in increasing source order, each listing exactly the
/// positions of its source in increasing order.
pub open spec fn grouped_by_source(entries: Seq<TleSeedRecord>, groups: Seq<SourceGroup>) -> bool {
    &&& strictly_sorted(group_sources(groups))
    &&& forall|g: int| 0 <= g < groups.len() ==> members_exact(seed_sources(entries), #[trigger] groups[g].source@, groups[g].members@)
    &&& forall|i: int| 0 <= i < entries.len() ==> group_sources(groups).contains(#[trigger] seed_sources(entries)[i])
}

/// Inserting a text at its place keeps a strictly sorted sequence sorted.
proof fn lemma_insert_sorted(kv: Seq<Seq<char>>, j: int, s: Seq<char>)
    requires
        strictly_sorted(kv),
        0 <= j <= kv.len(),
        forall|k: int| 0 <= k < j ==> text_before(#[trigger] kv[k], s),
        j < kv.len() ==> text_before(s, kv[j]),
    ensures
        strictly_sorted(kv.insert(j, s)),
{
    let nv = kv.insert(j, s);
    assert forall|a: int, b: int| 0 <= a < b < nv.len() implies text_before(#[trigger] nv[a], #[trigger] nv[b]) by {
        if b < j {
            assert(nv[a] == kv[a] && nv[b] == kv[b]);
        } else if b == j {
            assert(nv[a] == kv[a]);
        } else if a == j {
            assert(nv[b] == kv[b - 1]);
            if b - 1 > j {
                lemma_text_before_transitive(s, kv[j], kv[b - 1]);
            }
        } else if a < j {
            assert(nv[a] == kv[a] && nv[b] == kv[b - 1]);
            if b - 1 > j {
                lemma_text_before_transitive(s, kv[j], kv[b - 1]);
            }
            lemma_text_before_transitive(kv[a], s, kv[b - 1]);
        } else {
            assert(nv[a] == kv[a - 1] && nv[b] == kv[b - 1]);
        }
    }
}

/// The text views of character vectors.
pub open spec fn char_views(v: Seq<Vec<char>>) -> Seq<Seq<char>> {
    v.map_values(|k: Vec<char>| k@)
}

/// The distinct sources, in increasing order.
fn distinct_sources(entries: &Vec<TleSeedRecord>) -> (keys: Vec<Vec<char>>)
    ensures
        strictly_sorted(char_views(keys@)),
        forall|k: int| 0 <= k < keys@.len() ==> seed_sources(entries@).contains(#[trigger] char_views(keys@)[k]),
        forall|i: int| 0 <= i < entries@.len() ==> char_views(keys@).contains(#[trigger] seed_sources(entries@)[i]),
{
    let ghost src = seed_sources(entries@);
    let mut keys: Vec<Vec<char>> = Vec::new();
    let mut i: usize = 0;
    while i < entries.len()
        invariant
            i <= entries@.len(),
            src == seed_sources(entries@),
            strictly_sorted(char_views(keys@)),
            forall|k: int| 0 <= k < keys@.len() ==> src.take(i as int).contains(#[trigger] char_views(keys@)[k]),
            forall|m: int| 0 <= m < i ==> char_views(keys@).contains(#[trigger] src[m]),
        decreases entries@.len() - i,
    {
        let s = chars_of(entries[i].source.as_str());
        assert(s@ == src[i as int]);
        let ghost kv = char_views(keys@);
        let mut j: usize = 0;
        while j < keys.len() && text_less(&keys[j], &s)
            invariant
                j <= keys@.len(),
                kv == char_views(keys@),
                forall|k: int| 0 <= k < j ==> text_before(#[trigger] kv[k], s@),
            decreases keys@.len() - j,
        {
            j = j + 1;
        }
        let present = j < keys.len() && seq_equal(&keys[j], &s);
        if !present {
            proof {
                if j < kv.len() {
                    assert(kv[j as int] == keys@[j as int]@);
                    lemma_text_before_total(kv[j as int], s@);
                }
                lemma_insert_sorted(kv, j as int, s@);
            }
            keys.insert(j, s);
            proof {
                let nv = char_views(keys@);
                assert(nv =~= kv.insert(j as int, src[i as int]));
                assert forall|k: int| 0 <= k < keys@.len() implies src.take(i + 1).contains(#[trigger] nv[k]) by {
                    if k == j {
                        assert(src.take(i + 1)[i as int] == src[i as int]);
                    } else {
                        let o = if k < j { k } else { k - 1 };
                        assert(nv[k] == kv[o]);
                        assert(src.take(i as int).contains(kv[o]));
                        let w = choose|w: int| 0 <= w < i && src.take(i as int)[w] == kv[o];
                        assert(src.take(i + 1)[w] == src.take(i as int)[w]);
                    }
                }
                assert forall|m: int| 0 <= m < i + 1 implies nv.contains(#[trigger] src[m]) by {
                    if m == i {
                        assert(nv[j as int] == src[m]);
                    } else {
                        assert(kv.contains(src[m]));
                        let k = choose|k: int| 0 <= k < kv.len() && kv[k] == src[m];
                        if k < j {
                            assert(nv[k] == kv[k]);
                        } else {
                            assert(nv[k + 1] == kv[k]);
                        }
                    }
                }
            }
        } else {
            proof {
                assert(kv[j as int] == src[i as int]);
                assert forall|k: int| 0 <= k < keys@.len() implies src.take(i + 1).contains(#[trigger] kv[k]) by {
                    assert(src.take(i as int).contains(kv[k]));
                    let w = choose|w: int| 0 <= w < i && src.take(i as int)[w] == kv[k];
                    assert(src.take(i + 1)[w] == src.take(i as int)[w]);
                }
            }
        }
        i = i + 1;
    }
    proof {
        assert(src.take(i as int) =~= src);
    }
    keys
}

/// The positions of the element sets from source `key`, in order.
fn members_of(entries: &Vec<TleSeedRecord>, key: &Vec<char>) -> (members: Vec<usize>)
    requires
        seed_sources(entries@).contains(key@),
    ensures
        members_exact(seed_sources(entries@), key@, members@),
{
    let ghost src = seed_sources(entries@);
    let mut members: Vec<usize> = Vec::new();
    let mut i: usize = 0;
    while i < entries.len()
        invariant
            i <= entries@.len(),
            src == seed_sources(entries@),
            forall|a: int, b: int| 0 <= a < b < members@.len() ==> #[trigger] members@[a] < #[trigger] members@[b],
            forall|q: int| 0 <= q < members@.len() ==> #[trigger] members@[q] < i && src[members@[q] as int] == key@,
            forall|m: int| 0 <= m < i && #[trigger] src[m] == key@ ==> members@.contains(m as usize),
        decreases entries@.len() - i,
    {
        let s = chars_of(entries[i].source.as_str());
        assert(s@ == src[i as int]);
        if seq_equal(&s, key) {
            let ghost before = members@;
            members.push(i);
            proof {
                assert forall|m: int| 0 <= m < i + 1 && #[trigger] src[m] == key@ implies members@.contains(m as usize) by {
                    if m == i {
                        assert(members@[before.len() as int] == i);
                    } else {
                        let w = choose|w: int| 0 <= w < before.len() && before[w] == m as usize;
                        assert(members@[w] == before[w]);
                    }
                }
            }
        }
        i = i + 1;
    }
    proof {
        let w = choose|w: int| 0 <= w < src.len() && src[w] == key@;
        assert(members@.contains(w as usize));
    }
    members
}

/// Groups the packed element sets by source, in increasing source order,
/// so each source's sets are written together.
pub fn group_by_source(entries: &Vec<TleSeedRecord>) -> (groups: Vec<SourceGroup>)
    ensures
        grouped_by_source(entries@, groups@),
{
    let ghost src = seed_sources(entries@);
    let keys = distinct_sources(entries);
    let ghost kv = char_views(keys@);
    let mut groups: Vec<SourceGroup> = Vec::new();
    let mut k: usize = 0;
    while k < keys.len()
        invariant
            k <= keys@.len(),
            src == seed_sources(entries@),
            kv == char_views(keys@),
            forall|q: int| 0 <= q < keys@.len() ==> src.contains(#[trigger] kv[q]),
            group_sources(groups@) == kv.take(k as int),
            groups@.len() == k,
            forall|g: int| 0 <= g < groups@.len() ==> members_exact(src, #[trigger] groups@[g].source@, groups@[g].members@),
        decreases keys@.len() - k,
    {
        assert(src.contains(kv[k as int]));
        let members = members_of(entries, &keys[k]);
        let ghost old_groups = groups@;
        let source = string_of(&keys[k]);
        assert(source@ == kv[k as int]);
        groups.push(SourceGroup { source, members });
        proof {
            assert(groups@[k as int].source@ == kv[k as int]);
            assert(group_sources(groups@) =~= group_sources(old_groups).push(kv[k as int]));
            assert(kv.take(k as int).push(kv[k as int]) =~= kv.take(k + 1));
            assert(group_sources(groups@) =~= kv.take(k + 1));
            assert forall|g: int| 0 <= g < groups@.len() implies members_exact(src, #[trigger] groups@[g].source@, groups@[g].members@) by {
                if g < old_groups.len() {
                    assert(groups@[g] == old_groups[g]);
                }
            }
        }
        k = k + 1;
    }
    proof {
        assert(kv.take(k as int) =~= kv);
    }
    groups
}

} // verus!
