//! The two-tier cache-aside lookup: the process-local tier first, the
//! shared store second, the origin last. The caller performs the
//! shared-store and origin fetches and hands their outcomes in; the
//! steps here decide what each outcome means and which tiers to
//! populate. A lookup fails only where the origin fetch fails, and a
//! failure to populate a tier never fails the lookup.

use vstd::prelude::*;

use crate::local_cache::{
    kind_of, spec_live, CacheValue, CacheValueView, InstanceCache, ValueKind,
};

verus! {

/// The fixed time-to-live of shared-tier entries: one day in seconds.
pub const SHARED_TIER_TTL_SECS: u64 = 86400;

/// A write owed to the shared store after a successful origin fetch.
pub struct SharedWrite {
    pub key: String,
    pub value: String,
    pub ttl_secs: u64,
}

/// The local-tier step: a live text entry under `cache_key` answers
/// the lookup at once.
pub fn lookup_local(cache: &mut InstanceCache, cache_key: &str, now: u64) -> (r: Option<String>)
    requires
        old(cache).wf(),
    ensures
        final(cache).wf(),
        r matches Some(v) ==> (old(cache).spec_get(cache_key@) matches Some(e) && spec_live(
            e,
            now,
        ) && e.value@ == CacheValueView::Text(v@)),
        r is Some <==> (old(cache).spec_get(cache_key@) matches Some(e) && spec_live(e, now)
            && e.value@ is Text),
        forall|k: Seq<char>|
            k != cache_key@ ==> #[trigger] final(cache).spec_get(k) == old(cache).spec_get(k),
        final(cache).spec_get(cache_key@) is Some ==> final(cache).spec_get(cache_key@)
            == old(cache).spec_get(cache_key@),
        (old(cache).spec_get(cache_key@) matches Some(e) && spec_live(e, now))
            ==> final(cache).spec_get(cache_key@) == old(cache).spec_get(cache_key@),
{
    match cache.get(cache_key, ValueKind::Text, now) {
        Some(CacheValue::Text(s)) => Some(s),
        Some(CacheValue::Bytes(_)) => None,
        None => None,
    }
}

/// The shared-tier step: a value fetched from the shared store is
/// handed back verbatim, after populating the local tier with the
/// caller's time-to-live; an absent value sends the lookup to the
/// origin.
pub fn lookup_on_shared(
    cache: &mut InstanceCache,
    cache_key: &str,
    ttl_secs: u64,
    now: u64,
    fetched: Option<String>,
) -> (r: Option<String>)
    requires
        old(cache).wf(),
    ensures
        final(cache).wf(),
        r == fetched,
        fetched matches Some(v) ==> (final(cache).spec_get(cache_key@) matches Some(e)
            && e.value@ == CacheValueView::Text(v@) && e.expires_at
            == crate::local_cache::spec_expiry(now, ttl_secs)),
        fetched is None ==> *final(cache) == *old(cache),
        forall|k: Seq<char>|
            k != cache_key@ ==> #[trigger] final(cache).spec_get(k) == old(cache).spec_get(k),
{
    match fetched {
        Some(v) => {
            cache.set(cache_key, CacheValue::Text(v.clone()), ttl_secs, now);
            Some(v)
        },
        None => None,
    }
}

/// The origin step: a fetched value populates the local tier and names
/// the shared-store write the caller owes; the value, or the origin's
/// failure, is handed back verbatim.
pub fn lookup_on_origin(
    cache: &mut InstanceCache,
    cache_key: &str,
    ttl_secs: u64,
    now: u64,
    fetched: Result<String, String>,
) -> (r: (Result<String, String>, Option<SharedWrite>))
    requires
        old(cache).wf(),
    ensures
        final(cache).wf(),
        r.0 == fetched,
        fetched matches Ok(v) ==> (r.1 matches Some(w) && w.key@ == cache_key@ && w.value@ == v@
            && w.ttl_secs == SHARED_TIER_TTL_SECS),
        fetched matches Ok(v) ==> (final(cache).spec_get(cache_key@) matches Some(e) && e.value@
            == CacheValueView::Text(v@) && e.expires_at == crate::local_cache::spec_expiry(
            now,
            ttl_secs,
        )),
        fetched is Err ==> r.1 is None && *final(cache) == *old(cache),
        forall|k: Seq<char>|
            k != cache_key@ ==> #[trigger] final(cache).spec_get(k) == old(cache).spec_get(k),
{
    match fetched {
        Ok(v) => {
            cache.set(cache_key, CacheValue::Text(v.clone()), ttl_secs, now);
            let w = SharedWrite {
                key: cache_key.to_owned(),
                value: v.clone(),
                ttl_secs: SHARED_TIER_TTL_SECS,
            };
            (Ok(v), Some(w))
        },
        Err(m) => (Err(m), None),
    }
}

} // verus!
