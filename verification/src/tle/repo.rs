//! Ordering rules for applying one complete CelesTrak refresh: every group
//! exactly once, each non-empty, written in the canonical group order.
use vstd::prelude::*;
use crate::text::{concat, owned, push_str};
use super::fetcher::{query_of, CelestrakGroup};
use super::TleError;

verus! {

/// One fully fetched group, described by its group and how many element sets
/// it carries.
#[derive(Debug, Clone, Copy)]
pub struct CelestrakGroupBatch {
    pub group: CelestrakGroup,
    pub record_count: usize,
}

/// Result of applying a complete refresh: input rows processed, satellites in
/// more than one group counted once per group.
#[derive(Debug, Clone, Copy, PartialEq, Eq, Structural)]
pub struct CelestrakApplyOutcome {
    pub upserted: usize,
}

/// How many batches carry group `g`.
pub open spec fn group_count(bs: Seq<CelestrakGroupBatch>, g: CelestrakGroup) -> nat
    decreases bs.len(),
{
    if bs.len() == 0 {
        0
    } else {
        group_count(bs.drop_last(), g) + if bs.last().group == g {
            1nat
        } else {
            0nat
        }
    }
}

/// Index of the first batch carrying group `g` (the length when none does).
pub open spec fn first_with(bs: Seq<CelestrakGroupBatch>, g: CelestrakGroup) -> int
    decreases bs.len(),
{
    if bs.len() == 0 {
        0
    } else if bs[0].group == g {
        0
    } else {
        1 + first_with(bs.drop_first(), g)
    }
}

/// The problem group `g` has in `bs`, if any: missing, repeated, or empty.
pub open spec fn group_issue(bs: Seq<CelestrakGroupBatch>, g: CelestrakGroup) -> Option<Seq<char>> {
    if group_count(bs, g) == 0 {
        Some("complete sync is missing the "@ + query_of(g) + " group"@)
    } else if group_count(bs, g) > 1 {
        Some("complete sync contains the "@ + query_of(g) + " group more than once"@)
    } else if bs[first_with(bs, g)].record_count == 0 {
        Some("complete sync contains no records for the "@ + query_of(g) + " group"@)
    } else {
        None
    }
}

/// The first problem of a refresh, checking the groups in canonical order.
pub open spec fn refresh_issue(bs: Seq<CelestrakGroupBatch>) -> Option<Seq<char>> {
    if group_issue(bs, CelestrakGroup::Stations) is Some {
        group_issue(bs, CelestrakGroup::Stations)
    } else if group_issue(bs, CelestrakGroup::Weather) is Some {
        group_issue(bs, CelestrakGroup::Weather)
    } else if group_issue(bs, CelestrakGroup::Visual) is Some {
        group_issue(bs, CelestrakGroup::Visual)
    } else if group_issue(bs, CelestrakGroup::Amateur) is Some {
        group_issue(bs, CelestrakGroup::Amateur)
    } else if bs.len() != 4 {
        Some("complete sync must contain each canonical group exactly once"@)
    } else {
        None
    }
}

proof fn lemma_count_positive_first(bs: Seq<CelestrakGroupBatch>, g: CelestrakGroup)
    ensures
        0 <= first_with(bs, g) <= bs.len(),
        group_count(bs, g) > 0 <==> first_with(bs, g) < bs.len(),
        first_with(bs, g) < bs.len() ==> bs[first_with(bs, g)].group == g,
        forall|k: int| 0 <= k < first_with(bs, g) ==> bs[k].group != g,
    decreases bs.len(),
{
    if bs.len() > 0 {
        lemma_count_positive_first(bs.drop_first(), g);
        lemma_count_split(bs, g);
        assert forall|k: int| 0 <= k < first_with(bs, g) implies bs[k].group != g by {
            if k > 0 {
                assert(bs[k] == bs.drop_first()[k - 1]);
            }
        }
    }
}

proof fn lemma_count_split(bs: Seq<CelestrakGroupBatch>, g: CelestrakGroup)
    requires
        bs.len() > 0,
    ensures
        group_count(bs, g) == group_count(bs.drop_first(), g) + if bs[0].group == g {
            1nat
        } else {
            0nat
        },
    decreases bs.len(),
{
    if bs.len() > 1 {
        lemma_count_split(bs.drop_last(), g);
        assert(bs.drop_last().drop_first() =~= bs.drop_first().drop_last());
        assert(bs.drop_first().last() == bs.last());
        assert(bs.drop_last()[0] == bs[0]);
        assert(group_count(bs.drop_first(), g) == group_count(bs.drop_first().drop_last(), g) + if bs.last().group == g {
            1nat
        } else {
            0nat
        });
        assert(group_count(bs.drop_last(), g) == group_count(bs.drop_last().drop_first(), g) + if bs[0].group == g {
            1nat
        } else {
            0nat
        });
    } else {
        assert(bs.drop_first().len() == 0);
        assert(bs.last() == bs[0]);
        assert(group_count(bs.drop_first(), g) == 0);
        assert(group_count(bs.drop_last(), g) == 0);
        assert(bs.drop_last().len() == 0);
    }
}

/// Scans the batches for group `g`: the index of the first one carrying it
/// (the length when none does) and whether a second one carries it too.
fn find_group(batches: &[CelestrakGroupBatch], g: CelestrakGroup) -> (r: (usize, bool))
    ensures
        r.0 == first_with(batches@, g),
        r.1 == (group_count(batches@, g) > 1),
{
    proof {
        lemma_count_positive_first(batches@, g);
    }
    let mut first: usize = batches.len();
    let mut i: usize = 0;
    let mut seen: usize = 0;
    while i < batches.len()
        invariant
            i <= batches@.len(),
            seen <= 2,
            seen == if group_count(batches@.take(i as int), g) > 2 {
                2
            } else {
                group_count(batches@.take(i as int), g)
            },
            seen == 0 ==> first == batches.len(),
            seen > 0 ==> first == first_with(batches@, g),
            0 <= first_with(batches@, g) <= batches@.len(),
            forall|k: int| 0 <= k < first_with(batches@, g) ==> batches@[k].group != g,
            first_with(batches@, g) < batches@.len() ==> batches@[first_with(batches@, g)].group
                == g,
            seen == 0 ==> first_with(batches@, g) >= i,
        decreases batches.len() - i,
    {
        assert(batches@.take(i + 1).drop_last() =~= batches@.take(i as int));
        if batches[i].group == g {
            if seen == 0 {
                first = i;
            }
            if seen < 2 {
                seen = seen + 1;
            }
        }
        i = i + 1;
    }
    assert(batches@.take(i as int) =~= batches@);
    (first, seen > 1)
}

fn issue_text(prefix: &str, g: CelestrakGroup, suffix: &str) -> (e: TleError)
    ensures
        e matches TleError::InvalidCelestrakData(m) && m@ == prefix@ + query_of(g) + suffix@,
{
    let mut m = concat(prefix, g.as_query());
    push_str(&mut m, suffix);
    TleError::InvalidCelestrakData(m)
}

/// Validates a complete refresh and returns the batch indices in canonical
/// write order (`CelestrakGroup::ALL`), whatever the input order.
pub fn canonical_batches(batches: &[CelestrakGroupBatch]) -> (r: Result<Vec<usize>, TleError>)
    ensures
        match refresh_issue(batches@) {
            Some(msg) => r matches Err(TleError::InvalidCelestrakData(m)) && m@ == msg,
            None => r matches Ok(order) && order@.len() == 4 && forall|j: int|
                0 <= j < 4 ==> #[trigger] order@[j] == first_with(
                    batches@,
                    CelestrakGroup::ALL@[j],
                ) && batches@[order@[j] as int].group == CelestrakGroup::ALL@[j],
        },
{
    let mut ordered: Vec<usize> = Vec::new();
    let mut j: usize = 0;
    while j < 4
        invariant
            j <= 4,
            ordered@.len() == j,
            forall|k: int|
                0 <= k < j ==> group_issue(batches@, #[trigger] CelestrakGroup::ALL@[k]) is None,
            forall|k: int|
                0 <= k < j ==> #[trigger] ordered@[k] == first_with(
                    batches@,
                    CelestrakGroup::ALL@[k],
                ) && batches@[ordered@[k] as int].group == CelestrakGroup::ALL@[k],
        decreases 4 - j,
    {
        let group = CelestrakGroup::ALL[j];
        proof {
            lemma_count_positive_first(batches@, group);
        }
        let (first, repeated) = find_group(batches, group);
        if first == batches.len() {
            return Err(issue_text("complete sync is missing the ", group, " group"));
        }
        if repeated {
            return Err(issue_text("complete sync contains the ", group, " group more than once"));
        }
        if batches[first].record_count == 0 {
            return Err(
                issue_text("complete sync contains no records for the ", group, " group"),
            );
        }
        ordered.push(first);
        j = j + 1;
    }
    if batches.len() != 4 {
        return Err(
            TleError::InvalidCelestrakData(
                owned("complete sync must contain each canonical group exactly once"),
            ),
        );
    }
    Ok(ordered)
}

} // verus!
