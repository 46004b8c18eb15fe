//! The partitioned-cache protocol over a shared key-value store:
//! planning the multi-key write of `set`, deciding the fetches of
//! `get` and checking their completeness, and the stopping rule of the
//! chunk-deletion sweep. The store calls themselves are made by the
//! embedding program, which hands the fetched values back to these
//! functions.

use vstd::prelude::*;

use crate::errors::CacheError;
use crate::metadata::{
    encode_metadata, is_canonical_metadata, metadata_read_of, parse_metadata, spec_metadata_bytes,
    PartitionMeta,
};
use crate::numeric::push_dec_chars;
use crate::partition::{
    assemble_chunks, chunk_keys, concat_bytes, fetched_views, lemma_chunk_key_ne_meta,
    lemma_chunk_keys_distinct, lemma_chunks_roundtrip, lemma_partition_count_bounds, meta_key,
    partition_count, spec_chunk, spec_chunk_key, spec_chunks, spec_meta_key,
    spec_partition_count, split_into_chunks,
};

verus! {

/// The key of chunk `i` for `key`.
pub fn chunk_key(key: &str, i: usize) -> (r: String)
    ensures
        r@ == spec_chunk_key(key@, i as nat),
{
    let mut s = key.to_owned();
    s.append(":partitioned");
    s.append(":");
    push_dec_chars(&mut s, i as u64);
    proof {
        assert(s@ =~= spec_chunk_key(key@, i as nat));
    }
    s
}

/// The views of a sequence of planned writes.
pub open spec fn pairs_view(s: Seq<(String, Vec<u8>)>) -> Seq<(Seq<char>, Seq<u8>)> {
    Seq::new(s.len(), |i: int| (s[i].0@, s[i].1@))
}

/// The writes that store a payload under `key`: one entry per chunk,
/// then the metadata entry.
pub open spec fn spec_set_plan(key: Seq<char>, bytes: Seq<u8>, is_binary: bool) -> Seq<
    (Seq<char>, Seq<u8>),
> {
    Seq::new(
        spec_partition_count(bytes.len()),
        |i: int| (spec_chunk_key(key, i as nat), spec_chunk(bytes, i as nat)),
    ).push((spec_meta_key(key), spec_metadata_bytes(spec_partition_count(bytes.len()), is_binary)))
}

/// Plans the single multi-key write that stores `bytes` under `key`:
/// every chunk under its chunk key, and the metadata entry last. The
/// caller issues the write as one batch, with its time-to-live applied
/// to every key.
pub fn set_partitioned_plan(key: &str, bytes: &Vec<u8>, is_binary: bool) -> (r: Vec<
    (String, Vec<u8>),
>)
    ensures
        pairs_view(r@) == spec_set_plan(key@, bytes@, is_binary),
        r@.len() == spec_partition_count(bytes@.len()) + 1,
{
    let count = partition_count(bytes.len());
    let keys = chunk_keys(key, count);
    let chunks = split_into_chunks(bytes);
    let mut out: Vec<(String, Vec<u8>)> = Vec::new();
    let mut i: usize = 0;
    let mut keys = keys;
    let mut chunks = chunks;
    // consume the chunk and key vectors front to back
    while i < count
        invariant
            i <= count,
            count == spec_partition_count(bytes@.len()),
            out@.len() == i as int,
            keys@.len() == count,
            chunks@.len() == count,
            forall|j: int| 0 <= j < count ==> keys@[j]@ == spec_chunk_key(key@, j as nat),
            forall|j: int| 0 <= j < count ==> chunks@[j]@ == spec_chunk(bytes@, j as nat),
            forall|j: int|
                0 <= j < i ==> (out@[j].0@, out@[j].1@) == (
                    spec_chunk_key(key@, j as nat),
                    spec_chunk(bytes@, j as nat),
                ),
        decreases count - i,
    {
        let k = keys[i].clone();
        let mut c: Vec<u8> = Vec::new();
        let chunk_ref = &chunks[i];
        c.extend_from_slice(chunk_ref.as_slice());
        proof {
            assert(c@ =~= chunks@[i as int]@);
        }
        out.push((k, c));
        i += 1;
    }
    let meta = PartitionMeta { partition_count: count, is_binary_encoded: is_binary };
    let meta_bytes = encode_metadata(&meta);
    out.push((meta_key(key), meta_bytes));
    proof {
        assert(pairs_view(out@) =~= spec_set_plan(key@, bytes@, is_binary));
    }
    out
}

/// Decides the chunk fetch of `get` from the fetched metadata entry:
/// an absent entry is a miss, an unreadable entry a decode failure,
/// and a readable one names the chunk keys to fetch, in index order.
pub fn partitioned_get_on_meta(key: &str, meta: &Option<Vec<u8>>) -> (r: Result<
    (PartitionMeta, Vec<String>),
    CacheError,
>)
    ensures
        meta is None ==> r == Err::<(PartitionMeta, Vec<String>), CacheError>(CacheError::Miss),
        r matches Ok(p) ==> {
            &&& meta matches Some(b) && metadata_read_of(b@) == Some(p.0)
            &&& p.1@.len() == p.0.partition_count
            &&& forall|i: int|
                0 <= i < p.1@.len() ==> p.1@[i]@ == spec_chunk_key(key@, i as nat)
        },
        meta matches Some(b) ==> (r is Ok <==> metadata_read_of(b@) is Some),
        forall|m: PartitionMeta|
            (meta is Some && #[trigger] is_canonical_metadata(meta->Some_0@, m)) ==> (r matches Ok(
                p,
            ) && p.0 == m),
        meta matches Some(b) ==> (r matches Err(e) ==> e is Decode),
{
    match meta {
        None => Err(CacheError::Miss),
        Some(bytes) => {
            let parsed = parse_metadata(bytes)?;
            let keys = chunk_keys(key, parsed.partition_count);
            Ok((parsed, keys))
        },
    }
}

/// Reassembles the fetched chunks of `get`: succeeds exactly when all
/// announced chunks are present, and pairs the payload with the
/// metadata's encoding flag.
pub fn partitioned_get_reassemble(meta: &PartitionMeta, results: &Vec<Option<Vec<u8>>>) -> (r:
    Result<(Vec<u8>, bool), CacheError>)
    ensures
        r is Ok <==> (results@.len() == meta.partition_count && forall|i: int|
            0 <= i < results@.len() ==> results@[i] is Some),
        r matches Ok(p) ==> p.0@ == concat_bytes(fetched_views(results@)) && p.1
            == meta.is_binary_encoded,
        r matches Err(e) ==> e is PartitionMismatch,
{
    let payload = assemble_chunks(results, meta.partition_count)?;
    Ok((payload, meta.is_binary_encoded))
}

/// The stopping rule of the chunk-deletion sweep: after deleting the
/// metadata entry, chunk keys are deleted for indices `0, 1, 2, ...`,
/// and the sweep continues exactly while the store reports one entry
/// removed. A gap left by an out-of-band deletion therefore ends the
/// sweep early and leaves later chunks behind; this mirrors the
/// documented best-effort cleanup.
pub fn delete_sweep_continues(removed: u64) -> (r: bool)
    ensures
        r == (removed == 1),
{
    removed == 1
}

/// The store contents after the writes of a plan are applied in order.
pub open spec fn store_of_plan(plan: Seq<(Seq<char>, Seq<u8>)>) -> Map<Seq<char>, Seq<u8>>
    decreases plan.len(),
{
    if plan.len() == 0 {
        Map::empty()
    } else {
        store_of_plan(plan.drop_last()).insert(plan.last().0, plan.last().1)
    }
}

/// All keys of a plan are pairwise distinct.
pub open spec fn plan_keys_distinct(plan: Seq<(Seq<char>, Seq<u8>)>) -> bool {
    forall|i: int, j: int|
        0 <= i < plan.len() && 0 <= j < plan.len() && i != j ==> #[trigger] plan[i].0
            != #[trigger] plan[j].0
}

proof fn lemma_store_lookup(plan: Seq<(Seq<char>, Seq<u8>)>, j: int)
    requires
        plan_keys_distinct(plan),
        0 <= j < plan.len(),
    ensures
        store_of_plan(plan).contains_key(plan[j].0),
        store_of_plan(plan)[plan[j].0] == plan[j].1,
    decreases plan.len(),
{
    if j == plan.len() - 1 {
    } else {
        assert(forall|a: int, b: int|
            0 <= a < plan.drop_last().len() && 0 <= b < plan.drop_last().len() ==> plan.drop_last()[a]
                == plan[a] && plan.drop_last()[b] == plan[b]);
        lemma_store_lookup(plan.drop_last(), j);
        assert(plan[j].0 != plan.last().0);
    }
}

proof fn lemma_set_plan_keys_distinct(key: Seq<char>, bytes: Seq<u8>, is_binary: bool)
    ensures
        plan_keys_distinct(spec_set_plan(key, bytes, is_binary)),
{
    let plan = spec_set_plan(key, bytes, is_binary);
    let count = spec_partition_count(bytes.len());
    assert forall|i: int, j: int|
        0 <= i < plan.len() && 0 <= j < plan.len() && i != j implies #[trigger] plan[i].0
        != #[trigger] plan[j].0 by {
        if i < count && j < count {
            lemma_chunk_keys_distinct(key, i as nat, j as nat);
        } else if i < count {
            lemma_chunk_key_ne_meta(key, i as nat);
        } else {
            lemma_chunk_key_ne_meta(key, j as nat);
        }
    }
}

/// Round-trip: after the writes of `set_partitioned_plan` are applied,
/// the metadata entry is present and canonical, every chunk entry is
/// present, and the chunks reassemble, in index order, to exactly the
/// stored payload.
pub proof fn lemma_partitioned_roundtrip(key: Seq<char>, bytes: Seq<u8>, is_binary: bool)
    requires
        bytes.len() <= usize::MAX,
    ensures
        ({
            let store = store_of_plan(spec_set_plan(key, bytes, is_binary));
            let count = spec_partition_count(bytes.len());
            &&& store.contains_key(spec_meta_key(key))
            &&& count <= usize::MAX
            &&& is_canonical_metadata(
                store[spec_meta_key(key)],
                PartitionMeta {
                    partition_count: count as usize,
                    is_binary_encoded: is_binary,
                },
            )
            &&& forall|i: nat|
                i < count ==> store.contains_key(#[trigger] spec_chunk_key(key, i))
                    && store[spec_chunk_key(key, i)] == spec_chunk(bytes, i)
            &&& concat_bytes(Seq::new(count, |i: int| store[spec_chunk_key(key, i as nat)]))
                == bytes
        }),
{
    let plan = spec_set_plan(key, bytes, is_binary);
    let store = store_of_plan(plan);
    let count = spec_partition_count(bytes.len());
    lemma_partition_count_bounds(bytes.len());
    lemma_set_plan_keys_distinct(key, bytes, is_binary);
    lemma_store_lookup(plan, plan.len() - 1);
    assert forall|i: nat| i < count implies store.contains_key(#[trigger] spec_chunk_key(key, i))
        && store[spec_chunk_key(key, i)] == spec_chunk(bytes, i) by {
        lemma_store_lookup(plan, i as int);
    }
    lemma_chunks_roundtrip(bytes);
    assert(Seq::new(count, |i: int| store[spec_chunk_key(key, i as nat)]) =~= spec_chunks(bytes));
}

/// Missing-chunk detection: if any one chunk entry disappears after a
/// `set`, the metadata entry still announces the full count while that
/// chunk key is absent, so reassembly reports a partition mismatch and
/// never reconstructs partial data.
pub proof fn lemma_missing_chunk_detected(key: Seq<char>, bytes: Seq<u8>, is_binary: bool, j: nat)
    requires
        bytes.len() <= usize::MAX,
        j < spec_partition_count(bytes.len()),
    ensures
        ({
            let damaged = store_of_plan(spec_set_plan(key, bytes, is_binary)).remove(
                spec_chunk_key(key, j),
            );
            let count = spec_partition_count(bytes.len());
            &&& damaged.contains_key(spec_meta_key(key))
            &&& is_canonical_metadata(
                damaged[spec_meta_key(key)],
                PartitionMeta {
                    partition_count: count as usize,
                    is_binary_encoded: is_binary,
                },
            )
            &&& !damaged.contains_key(spec_chunk_key(key, j))
            &&& forall|i: nat|
                i < count && i != j ==> damaged.contains_key(#[trigger] spec_chunk_key(key, i))
        }),
{
    lemma_partitioned_roundtrip(key, bytes, is_binary);
    lemma_chunk_key_ne_meta(key, j);
    let count = spec_partition_count(bytes.len());
    assert forall|i: nat| i < count && i != j implies store_of_plan(
        spec_set_plan(key, bytes, is_binary),
    ).remove(spec_chunk_key(key, j)).contains_key(#[trigger] spec_chunk_key(key, i)) by {
        lemma_chunk_keys_distinct(key, i, j);
    }
}

} // verus!
