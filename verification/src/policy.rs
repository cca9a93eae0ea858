use vstd::prelude::*;

use crate::civil::CivilTime;

verus! {

/// The verdict of the freshness policy.
#[derive(Clone, Copy, Debug, PartialEq, Eq, Structural)]
pub enum FreshnessDecision {
    /// Reuse the cached snapshot.
    Hit,
    /// A fresh fetch is required.
    Miss,
}

/// The local hour from which the day's rates are expected to have been
/// published.
pub const PUBLICATION_HOUR: u8 = 17;

/// Two civil times that fall on the same calendar day.
pub open spec fn same_civil_date(a: CivilTime, b: CivilTime) -> bool {
    a.year == b.year && a.month == b.month && a.day == b.day
}

/// The freshness policy over publication-zone civil times. `fetch_local` is
/// the local time the cached record was fetched, or `None` when nothing is
/// cached under today's key. Before the publication hour any same-key cache
/// is reused; from the publication hour on, only a capture taken today, at
/// or after the publication hour, is reused.
pub open spec fn freshness_spec(now_local: CivilTime, fetch_local: Option<CivilTime>) -> FreshnessDecision {
    match fetch_local {
        None => FreshnessDecision::Miss,
        Some(f) => if now_local.hour < PUBLICATION_HOUR {
            FreshnessDecision::Hit
        } else if same_civil_date(f, now_local) && f.hour >= PUBLICATION_HOUR {
            FreshnessDecision::Hit
        } else {
            FreshnessDecision::Miss
        },
    }
}

/// Decide whether a cached record fetched at `fetch_local` may serve a
/// request made at `now_local`; a pure function of its two arguments.
pub fn decide_freshness(now_local: CivilTime, fetch_local: Option<CivilTime>) -> (r:
    FreshnessDecision)
    ensures
        r == freshness_spec(now_local, fetch_local),
{
    match fetch_local {
        None => FreshnessDecision::Miss,
        Some(f) => {
            if now_local.hour < PUBLICATION_HOUR {
                FreshnessDecision::Hit
            } else if f.year == now_local.year && f.month == now_local.month && f.day
                == now_local.day && f.hour >= PUBLICATION_HOUR {
                FreshnessDecision::Hit
            } else {
                FreshnessDecision::Miss
            }
        },
    }
}

/// With no cached record the decision is a miss, whatever the current
/// instant.
pub proof fn lemma_no_record_is_miss(now_local: CivilTime)
    ensures
        freshness_spec(now_local, None) == FreshnessDecision::Miss,
{
}

/// At exactly the publication hour a request is treated as post-publication:
/// it leaves the unconditional-reuse branch, and a capture taken today at or
/// after the publication hour — the hour itself included — is a hit, any
/// other capture a miss.
pub proof fn lemma_publication_boundary(now_local: CivilTime, fetch_local: CivilTime)
    requires
        now_local.hour == PUBLICATION_HOUR,
    ensures
        freshness_spec(now_local, Some(fetch_local)) == (if same_civil_date(
            fetch_local,
            now_local,
        ) && fetch_local.hour >= PUBLICATION_HOUR {
            FreshnessDecision::Hit
        } else {
            FreshnessDecision::Miss
        }),
{
}

} // verus!
