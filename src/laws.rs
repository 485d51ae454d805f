use vstd::prelude::*;

use crate::cache::{CacheView, CycleKind, RefreshPolicy};
use crate::document::DocMap;
use crate::text::{
    bool_of_text, bool_text, int_of_text, int_text, lemma_bool_text_round_trip,
    lemma_int_text_round_trip,
};

verus! {

/// A new cache expires at its creation time, so the first check at or after it runs a
/// cycle, and that cycle is a fetch. After the fetch succeeds, no further check within one
/// interval of the creation time asks for network work.
pub proof fn lemma_first_check_fetches_once(created: u64, interval: u64, now: u64, later: u64, d: DocMap)
    requires
        created <= now,
        created + interval <= u64::MAX,
        later < created + interval,
    ensures
        CacheView::initial(created as int, interval as int).decide(now as int, RefreshPolicy::OnAccess)
            == CycleKind::Fetch,
        CacheView::initial(created as int, interval as int).after_fetch(Some(d)).decide(
            later as int,
            RefreshPolicy::OnAccess,
        ) == CycleKind::Idle,
{
}

/// While a cache is fresh, a check on access asks for no network work and leaves the
/// state, and so every read, as it was.
pub proof fn lemma_fresh_check_is_idle(c: CacheView, now: int)
    requires
        now < c.expires_at,
    ensures
        c.decide(now, RefreshPolicy::OnAccess) == CycleKind::Idle,
{
}

/// After a local change, the next cycle that runs is a write of a document that holds the
/// new value, and no fetch takes place in that cycle.
pub proof fn lemma_set_then_cycle_writes(c: CacheView, key: Seq<char>, value: Seq<char>, now: int, policy: RefreshPolicy)
    requires
        c.after_set(key, value).decide(now, policy) != CycleKind::Idle,
    ensures
        c.after_set(key, value).decide(now, policy) == CycleKind::Write,
        c.after_set(key, value).document.contains_key(key),
        c.after_set(key, value).document[key] == value,
{
}

/// Storing an integer, flushing it, and fetching back what was written gives the integer.
pub proof fn lemma_round_trip_i64(c: CacheView, key: Seq<char>, value: i64)
    ensures
        ({
            let set = c.after_set(key, int_text(value as int));
            let written = set.after_write(true);
            let reloaded = written.after_fetch(Some(set.document));
            &&& set.cycle() == CycleKind::Write
            &&& written.cycle() == CycleKind::Fetch
            &&& reloaded.document.contains_key(key)
            &&& int_of_text(reloaded.document[key]) == Some(value as int)
        }),
{
    lemma_int_text_round_trip(value);
}

/// Storing a boolean, flushing it, and fetching back what was written gives the boolean.
pub proof fn lemma_round_trip_bool(c: CacheView, key: Seq<char>, value: bool)
    ensures
        ({
            let set = c.after_set(key, bool_text(value));
            let written = set.after_write(true);
            let reloaded = written.after_fetch(Some(set.document));
            &&& set.cycle() == CycleKind::Write
            &&& written.cycle() == CycleKind::Fetch
            &&& reloaded.document.contains_key(key)
            &&& bool_of_text(reloaded.document[key]) == Some(value)
        }),
{
    lemma_bool_text_round_trip(value);
}

/// Storing a string, flushing it, and fetching back what was written gives the string.
pub proof fn lemma_round_trip_string(c: CacheView, key: Seq<char>, value: Seq<char>)
    ensures
        ({
            let set = c.after_set(key, value);
            let written = set.after_write(true);
            let reloaded = written.after_fetch(Some(set.document));
            &&& set.cycle() == CycleKind::Write
            &&& written.cycle() == CycleKind::Fetch
            &&& reloaded.document.contains_key(key)
            &&& reloaded.document[key] == value
        }),
{
}

/// A fetch replaces the document whole: afterwards it holds exactly the fetched keys and
/// values, none left over from before. A failed fetch or write changes nothing.
pub proof fn lemma_fetch_replaces_whole(c: CacheView, d: DocMap)
    ensures
        c.after_fetch(Some(d)).document == d,
        !c.after_fetch(Some(d)).dirty,
        c.after_fetch(None) == c,
        c.after_write(false) == c,
{
}

} // verus!
