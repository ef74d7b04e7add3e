//! Watch-history rules that do not depend on the store: when a cached
//! episode list is too old, and what a new entry records of an item.

use vstd::prelude::*;
use crate::api::ContentItem;

verus! {

/// How long a cached episode list stays fresh, in seconds: a day.
pub const EPISODE_CACHE_TTL_SECS: i64 = 86400;

/// A cached episode list is stale when it was never stored, or when a
/// full day has passed since it was (times in whole seconds).
pub open spec fn cache_stale(updated_at: Option<i64>, now: i64) -> bool {
    match updated_at {
        None => true,
        Some(t) => now - t >= EPISODE_CACHE_TTL_SECS,
    }
}

/// Whether an episode list stored at `updated_at` is stale at `now`.
pub fn episodes_cache_stale(updated_at: Option<i64>, now: i64) -> (r: bool)
    ensures
        r == cache_stale(updated_at, now),
{
    match updated_at {
        None => true,
        Some(t) => (now as i128) - (t as i128) >= EPISODE_CACHE_TTL_SECS as i128,
    }
}

/// Staleness only comes with time: a list stale at some time is stale at
/// every later time.
pub proof fn lemma_staleness_monotone(updated_at: Option<i64>, a: i64, b: i64)
    requires
        a <= b,
    ensures
        cache_stale(updated_at, a) ==> cache_stale(updated_at, b),
{
}

/// The episode total a new history entry records for an item: the larger of
/// its sub and dub counts, when there are any.
pub fn total_for(item: &ContentItem) -> (r: Option<u32>)
    ensures
        ({
            let a = item.anime();
            let t = if a.episodes_sub >= a.episodes_dub {
                a.episodes_sub
            } else {
                a.episodes_dub
            };
            r == if t > 0 {
                Some(t)
            } else {
                None::<u32>
            }
        }),
{
    match item {
        ContentItem::Anime(a) => {
            let eps = a.total_episodes();
            if eps > 0 {
                Some(eps)
            } else {
                None
            }
        },
    }
}

} // verus!
