//! Schema retrieval through the two-tier lookup: the raw definition
//! text is cached in both tiers under `"{schema_id}_schema"`
//! for one day, and parsed at each tier. A cached text that no longer
//! parses counts as a miss for that tier — it must not block the next
//! tier or the origin — while a definition freshly fetched from the
//! schema authority that does not parse is a hard failure.

use vstd::prelude::*;

use crate::encoder::{record_schema_of, Schema};
use crate::errors::SchemaError;
use crate::local_cache::{spec_expiry, spec_live, CacheValueView, InstanceCache};
use crate::tiered::{lookup_local, lookup_on_origin, lookup_on_shared, SharedWrite};

verus! {

/// The time-to-live of a cached schema definition: one day in seconds.
pub const SCHEMA_TTL_SECS: u64 = 86400;

/// The cache key of a schema: the schema id with `"_schema"`.
pub open spec fn spec_schema_cache_key(schema_id: Seq<char>) -> Seq<char> {
    schema_id + "_schema"@
}

/// Builds the cache key of a schema.
pub fn schema_cache_key(schema_id: &str) -> (r: String)
    ensures
        r@ == spec_schema_cache_key(schema_id@),
{
    let mut s = schema_id.to_owned();
    s.append("_schema");
    s
}

/// The local-tier step of a schema lookup: a live cached definition
/// that parses answers the lookup; one that does not parse is dropped
/// as a miss, so the next tier is consulted.
pub fn schema_from_local(cache: &mut InstanceCache, schema_id: &str, now: u64) -> (r: Option<
    Schema,
>)
    requires
        old(cache).wf(),
    ensures
        final(cache).wf(),
        r matches Some(s) ==> {
            &&& s.wf()
            &&& old(cache).spec_get(spec_schema_cache_key(schema_id@)) matches Some(e)
                && spec_live(e, now) && e.value@ == CacheValueView::Text(s.definition@)
        },
        r is Some <==> (old(cache).spec_get(spec_schema_cache_key(schema_id@)) matches Some(e)
            && spec_live(e, now) && (e.value@ matches CacheValueView::Text(d)
            && record_schema_of(d) is Some)),
        forall|k: Seq<char>|
            k != spec_schema_cache_key(schema_id@) ==> #[trigger] final(cache).spec_get(k) == old(
                cache,
            ).spec_get(k),
        (old(cache).spec_get(spec_schema_cache_key(schema_id@)) matches Some(e) && spec_live(
            e,
            now,
        )) ==> final(cache).spec_get(spec_schema_cache_key(schema_id@)) == old(cache).spec_get(
            spec_schema_cache_key(schema_id@),
        ),
{
    let key = schema_cache_key(schema_id);
    match lookup_local(cache, key.as_str(), now) {
        Some(text) => match Schema::parse(text.as_str()) {
            Ok(s) => Some(s),
            Err(_) => None,
        },
        None => None,
    }
}

/// The shared-tier step of a schema lookup: a definition fetched from
/// the shared store populates the local tier either way; it answers
/// the lookup only where it parses.
pub fn schema_from_shared(
    cache: &mut InstanceCache,
    schema_id: &str,
    now: u64,
    fetched: Option<String>,
) -> (r: Option<Schema>)
    requires
        old(cache).wf(),
    ensures
        final(cache).wf(),
        r matches Some(s) ==> {
            &&& s.wf()
            &&& fetched matches Some(d) && s.definition@ == d@
        },
        r is Some <==> (fetched matches Some(d) && record_schema_of(d@) is Some),
        fetched matches Some(d) ==> (final(cache).spec_get(
            spec_schema_cache_key(schema_id@),
        ) matches Some(e) && e.value@ == CacheValueView::Text(d@) && e.expires_at == spec_expiry(
            now,
            SCHEMA_TTL_SECS,
        )),
        fetched is None ==> *final(cache) == *old(cache),
        forall|k: Seq<char>|
            k != spec_schema_cache_key(schema_id@) ==> #[trigger] final(cache).spec_get(k) == old(
                cache,
            ).spec_get(k),
{
    let key = schema_cache_key(schema_id);
    match lookup_on_shared(cache, key.as_str(), SCHEMA_TTL_SECS, now, fetched) {
        Some(text) => match Schema::parse(text.as_str()) {
            Ok(s) => Some(s),
            Err(_) => None,
        },
        None => None,
    }
}

/// The origin step of a schema lookup: a definition fetched from the
/// schema authority populates the local tier and names the owed
/// shared-store write, whether or not it parses; the lookup then
/// succeeds exactly where it parses. An origin failure is reported as
/// a fetch failure and caches nothing.
pub fn schema_from_origin(
    cache: &mut InstanceCache,
    schema_id: &str,
    now: u64,
    fetched: Result<String, String>,
) -> (r: (Result<Schema, SchemaError>, Option<SharedWrite>))
    requires
        old(cache).wf(),
    ensures
        final(cache).wf(),
        r.0 matches Ok(s) ==> {
            &&& s.wf()
            &&& fetched matches Ok(d) && s.definition@ == d@
        },
        r.0 is Ok <==> (fetched matches Ok(d) && record_schema_of(d@) is Some),
        fetched matches Ok(d) ==> (r.1 matches Some(w) && w.key@ == spec_schema_cache_key(
            schema_id@,
        ) && w.value@ == d@ && w.ttl_secs == SCHEMA_TTL_SECS),
        fetched matches Ok(d) ==> (final(cache).spec_get(
            spec_schema_cache_key(schema_id@),
        ) matches Some(e) && e.value@ == CacheValueView::Text(d@) && e.expires_at == spec_expiry(
            now,
            SCHEMA_TTL_SECS,
        )),
        fetched matches Err(m) ==> (r.0 == Err::<Schema, SchemaError>(SchemaError::Fetch(m))
            && r.1 is None && *final(cache) == *old(cache)),
        r.0 matches Err(e) ==> (fetched is Ok ==> e is Parse),
        forall|k: Seq<char>|
            k != spec_schema_cache_key(schema_id@) ==> #[trigger] final(cache).spec_get(k) == old(
                cache,
            ).spec_get(k),
{
    let key = schema_cache_key(schema_id);
    let (outcome, write) = lookup_on_origin(cache, key.as_str(), SCHEMA_TTL_SECS, now, fetched);
    match outcome {
        Ok(text) => match Schema::parse(text.as_str()) {
            Ok(s) => (Ok(s), write),
            Err(e) => (Err(e), write),
        },
        Err(m) => (Err(SchemaError::Fetch(m)), write),
    }
}

/// Two-tier behavior: once the origin step has run at second `now`,
/// the local tier holds the definition, so a second lookup for the
/// same schema before the entry expires is answered by the local tier
/// alone — no shared-store fetch and no origin fetch.
pub proof fn lemma_second_lookup_hits_local(
    cache: InstanceCache,
    schema_id: Seq<char>,
    d: Seq<char>,
    now: u64,
    later: u64,
)
    requires
        cache.spec_get(spec_schema_cache_key(schema_id)) matches Some(e) && e.value@
            == CacheValueView::Text(d) && e.expires_at == spec_expiry(now, SCHEMA_TTL_SECS),
        record_schema_of(d) is Some,
        later < spec_expiry(now, SCHEMA_TTL_SECS),
    ensures
        cache.spec_get(spec_schema_cache_key(schema_id)) matches Some(e) && spec_live(e, later)
            && (e.value@ matches CacheValueView::Text(d2) && record_schema_of(d2) is Some),
{
}

} // verus!
