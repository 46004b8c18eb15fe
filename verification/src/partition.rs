//! Splitting an oversized byte payload into fixed-size chunks and
//! reassembling it, together with the store keys the chunks and their
//! metadata entry live under.
//!
//! A payload of length `L` occupies `ceil(L / 2_000_000)` chunks (one
//! empty chunk when `L == 0`); chunk `i` holds
//! `bytes[i * 2_000_000 .. min((i + 1) * 2_000_000, L)]` and is stored
//! under `"{key}:partitioned:{i}"`, beside one metadata entry under
//! `"{key}:partitioned"`.

use vstd::prelude::*;

use crate::errors::CacheError;
use crate::numeric::{dec_chars, lemma_dec_chars_injective, lemma_dec_chars_len, push_dec_chars};

verus! {

/// The largest number of bytes one store entry may hold.
pub const CHUNK_SIZE: usize = 2000000;

/// How many chunks a payload of `len` bytes occupies: the ceiling of
/// `len / CHUNK_SIZE`, except that an empty payload still occupies one
/// (empty) chunk.
pub open spec fn spec_partition_count(len: nat) -> nat {
    if len == 0 {
        1
    } else {
        len / (CHUNK_SIZE as nat) + if len % (CHUNK_SIZE as nat) == 0 {
            0nat
        } else {
            1nat
        }
    }
}

/// Chunk `i` of a payload: the `i`-th `CHUNK_SIZE`-sized slice, the
/// last one possibly shorter.
pub open spec fn spec_chunk(bytes: Seq<u8>, i: nat) -> Seq<u8> {
    let start = i * (CHUNK_SIZE as nat);
    let end = if (i + 1) * (CHUNK_SIZE as nat) <= bytes.len() {
        (i + 1) * (CHUNK_SIZE as nat)
    } else {
        bytes.len()
    };
    bytes.subrange(start as int, end as int)
}

/// All chunks of a payload, in index order.
pub open spec fn spec_chunks(bytes: Seq<u8>) -> Seq<Seq<u8>> {
    Seq::new(spec_partition_count(bytes.len()), |i: int| spec_chunk(bytes, i as nat))
}

/// The concatenation of a sequence of byte sequences.
pub open spec fn concat_bytes(chunks: Seq<Seq<u8>>) -> Seq<u8>
    decreases chunks.len(),
{
    if chunks.len() == 0 {
        Seq::empty()
    } else {
        concat_bytes(chunks.drop_last()) + chunks.last()
    }
}

/// The chunk count puts `len` strictly above the space of one chunk
/// fewer and within the space of the full count.
pub proof fn lemma_partition_count_bounds(len: nat)
    ensures
        spec_partition_count(len) >= 1,
        len <= spec_partition_count(len) * (CHUNK_SIZE as nat),
        len > 0 ==> (spec_partition_count(len) - 1) * (CHUNK_SIZE as nat) < len,
{
    let c = CHUNK_SIZE as nat;
    if len > 0 {
        vstd::arithmetic::div_mod::lemma_fundamental_div_mod(len as int, c as int);
        let q = len / c;
        let r = len % c;
        assert(len == q * c + r);
        if r == 0 {
            assert(spec_partition_count(len) == q);
            assert(q >= 1);
            assert((q - 1) * c == q * c - c);
        } else {
            assert(spec_partition_count(len) == q + 1);
            assert((q + 1) * c == q * c + c);
        }
    }
}

proof fn lemma_concat_chunks_prefix(bytes: Seq<u8>, k: nat)
    requires
        k <= spec_partition_count(bytes.len()),
    ensures
        concat_bytes(spec_chunks(bytes).take(k as int)) == bytes.take(
            if k * (CHUNK_SIZE as nat) <= bytes.len() {
                (k * (CHUNK_SIZE as nat)) as int
            } else {
                bytes.len() as int
            },
        ),
    decreases k,
{
    let c = CHUNK_SIZE as nat;
    let len = bytes.len();
    lemma_partition_count_bounds(len);
    if k == 0 {
        assert(concat_bytes(spec_chunks(bytes).take(0)) =~= bytes.take(0));
    } else {
        lemma_concat_chunks_prefix(bytes, (k - 1) as nat);
        let pre = spec_chunks(bytes).take(k as int);
        assert(pre.drop_last() =~= spec_chunks(bytes).take(k as int - 1));
        assert(pre.last() == spec_chunk(bytes, (k - 1) as nat));
        // k - 1 < count, so the start of chunk k - 1 lies within the payload
        assert((k - 1) * c == k * c - c);
        if len > 0 {
            assert((k - 1) * c <= (spec_partition_count(len) - 1) * c) by (nonlinear_arith)
                requires
                    k - 1 <= spec_partition_count(len) - 1,
                    c > 0,
            ;
        }
        assert(concat_bytes(pre) =~= bytes.take(
            if k * c <= len {
                (k * c) as int
            } else {
                len as int
            },
        ));
    }
}

/// Reassembling all chunks of a payload, in index order, yields the
/// payload again.
pub proof fn lemma_chunks_roundtrip(bytes: Seq<u8>)
    ensures
        concat_bytes(spec_chunks(bytes)) == bytes,
{
    let count = spec_partition_count(bytes.len());
    lemma_partition_count_bounds(bytes.len());
    lemma_concat_chunks_prefix(bytes, count);
    assert(spec_chunks(bytes).take(count as int) =~= spec_chunks(bytes));
    assert(bytes.take(bytes.len() as int) =~= bytes);
}

/// How many chunks a payload of `len` bytes occupies.
pub fn partition_count(len: usize) -> (r: usize)
    ensures
        r == spec_partition_count(len as nat),
{
    if len == 0 {
        1
    } else {
        let q = len / CHUNK_SIZE;
        assert(q < usize::MAX);
        if len % CHUNK_SIZE == 0 {
            q
        } else {
            q + 1
        }
    }
}

/// Splits a payload into its chunks, in index order.
pub fn split_into_chunks(bytes: &Vec<u8>) -> (r: Vec<Vec<u8>>)
    ensures
        r@.len() == spec_partition_count(bytes@.len()),
        forall|i: int| 0 <= i < r@.len() ==> r@[i]@ == spec_chunk(bytes@, i as nat),
{
    let len = bytes.len();
    let count = partition_count(len);
    proof {
        lemma_partition_count_bounds(len as nat);
    }
    let mut out: Vec<Vec<u8>> = Vec::new();
    let mut i: usize = 0;
    let mut start: usize = 0;
    while i < count
        invariant
            i <= count,
            out@.len() == i as int,
            count == spec_partition_count(bytes@.len()),
            len == bytes@.len(),
            len <= count * CHUNK_SIZE,
            len > 0 ==> (count - 1) * CHUNK_SIZE < len,
            start as int == if i * CHUNK_SIZE <= len {
                (i * CHUNK_SIZE) as int
            } else {
                len as int
            },
            forall|j: int| 0 <= j < i ==> out@[j]@ == spec_chunk(bytes@, j as nat),
        decreases count - i,
    {
        proof {
            if len > 0 {
                assert(i * CHUNK_SIZE <= (count - 1) * CHUNK_SIZE) by (nonlinear_arith)
                    requires
                        i <= count - 1,
                        CHUNK_SIZE > 0,
                ;
            }
            assert((i + 1) * CHUNK_SIZE == i * CHUNK_SIZE + CHUNK_SIZE);
        }
        let end = if len - start >= CHUNK_SIZE {
            start + CHUNK_SIZE
        } else {
            len
        };
        let mut chunk: Vec<u8> = Vec::new();
        let mut j: usize = start;
        while j < end
            invariant
                start <= j <= end <= len,
                len == bytes@.len(),
                chunk@ == bytes@.subrange(start as int, j as int),
            decreases end - j,
        {
            chunk.push(bytes[j]);
            j += 1;
            proof {
                assert(chunk@ =~= bytes@.subrange(start as int, j as int));
            }
        }
        proof {
            assert(chunk@ == spec_chunk(bytes@, i as nat));
        }
        out.push(chunk);
        i += 1;
        start = end;
    }
    out
}

/// The views of the fetched chunk values; meaningful only where every
/// entry is present.
pub open spec fn fetched_views(results: Seq<Option<Vec<u8>>>) -> Seq<Seq<u8>> {
    Seq::new(results.len(), |i: int| results[i]->Some_0@)
}

/// How many of the fetched values are present.
pub open spec fn count_present(results: Seq<Option<Vec<u8>>>) -> nat
    decreases results.len(),
{
    if results.len() == 0 {
        0
    } else {
        count_present(results.drop_last()) + if results.last() is Some {
            1nat
        } else {
            0nat
        }
    }
}

proof fn lemma_count_present_all(results: Seq<Option<Vec<u8>>>)
    ensures
        count_present(results) <= results.len(),
        count_present(results) == results.len() <==> forall|i: int|
            0 <= i < results.len() ==> results[i] is Some,
    decreases results.len(),
{
    if results.len() > 0 {
        lemma_count_present_all(results.drop_last());
        assert(forall|i: int|
            0 <= i < results.len() - 1 ==> results[i] == results.drop_last()[i]);
        if forall|i: int| 0 <= i < results.len() ==> results[i] is Some {
            assert(results.last() is Some);
        }
    }
}

/// Reassembles fetched chunks into the payload: succeeds exactly when
/// every one of the `expected` chunks is present, and never
/// reconstructs from a partial set.
pub fn assemble_chunks(results: &Vec<Option<Vec<u8>>>, expected: usize) -> (r: Result<
    Vec<u8>,
    CacheError,
>)
    ensures
        r is Ok <==> (results@.len() == expected && forall|i: int|
            0 <= i < results@.len() ==> results@[i] is Some),
        r matches Ok(b) ==> b@ == concat_bytes(fetched_views(results@)),
        r matches Err(e) ==> e == (CacheError::PartitionMismatch {
            expected,
            found: count_present(results@) as usize,
        }),
{
    let n = results.len();
    let mut found: usize = 0;
    let mut i: usize = 0;
    while i < n
        invariant
            i <= n,
            n == results@.len(),
            found == count_present(results@.take(i as int)),
            found <= i,
        decreases n - i,
    {
        if results[i].is_some() {
            found += 1;
        }
        i += 1;
        proof {
            assert(results@.take(i as int).drop_last() =~= results@.take(i as int - 1));
        }
    }
    proof {
        assert(results@.take(n as int) =~= results@);
        lemma_count_present_all(results@);
    }
    if n != expected || found != n {
        return Err(CacheError::PartitionMismatch { expected, found });
    }
    let mut out: Vec<u8> = Vec::new();
    let mut i: usize = 0;
    while i < n
        invariant
            i <= n,
            n == results@.len(),
            forall|k: int| 0 <= k < n ==> results@[k] is Some,
            out@ == concat_bytes(fetched_views(results@).take(i as int)),
        decreases n - i,
    {
        match &results[i] {
            Some(chunk) => {
                out.extend_from_slice(chunk.as_slice());
            },
            None => {
                proof {
                    assert(false);
                }
            },
        }
        i += 1;
        proof {
            assert(fetched_views(results@).take(i as int).drop_last() =~= fetched_views(
                results@,
            ).take(i as int - 1));
        }
    }
    proof {
        assert(fetched_views(results@).take(n as int) =~= fetched_views(results@));
    }
    Ok(out)
}

/// The key of the metadata entry for `key`.
pub open spec fn spec_meta_key(key: Seq<char>) -> Seq<char> {
    key + ":partitioned"@
}

/// The key of chunk `i` for `key`.
pub open spec fn spec_chunk_key(key: Seq<char>, i: nat) -> Seq<char> {
    spec_meta_key(key) + ":"@ + dec_chars(i)
}

/// Builds the metadata key `"{key}:partitioned"`.
pub fn meta_key(key: &str) -> (r: String)
    ensures
        r@ == spec_meta_key(key@),
{
    let mut s = key.to_owned();
    s.append(":partitioned");
    s
}

/// Builds the chunk keys `"{key}:partitioned:{i}"` for `i` in
/// `[0, count)`, in index order.
pub fn chunk_keys(key: &str, count: usize) -> (r: Vec<String>)
    ensures
        r@.len() == count,
        forall|i: int| 0 <= i < count ==> r@[i]@ == spec_chunk_key(key@, i as nat),
{
    let mut out: Vec<String> = Vec::new();
    let mut i: usize = 0;
    while i < count
        invariant
            i <= count,
            out@.len() == i as int,
            forall|j: int| 0 <= j < i ==> out@[j]@ == spec_chunk_key(key@, j as nat),
        decreases count - i,
    {
        let mut s = key.to_owned();
        s.append(":partitioned");
        s.append(":");
        push_dec_chars(&mut s, i as u64);
        proof {
            assert(s@ =~= spec_chunk_key(key@, i as nat));
        }
        out.push(s);
        i += 1;
    }
    out
}

/// Chunk keys of one payload key are pairwise distinct.
pub proof fn lemma_chunk_keys_distinct(key: Seq<char>, i: nat, j: nat)
    ensures
        i != j ==> spec_chunk_key(key, i) != spec_chunk_key(key, j),
{
    if i != j && spec_chunk_key(key, i) == spec_chunk_key(key, j) {
        let p = spec_meta_key(key) + ":"@;
        assert(dec_chars(i) =~= (p + dec_chars(i)).subrange(
            p.len() as int,
            (p + dec_chars(i)).len() as int,
        ));
        assert(dec_chars(j) =~= (p + dec_chars(j)).subrange(
            p.len() as int,
            (p + dec_chars(j)).len() as int,
        ));
        lemma_dec_chars_injective(i, j);
    }
}

/// No chunk key equals the metadata key.
pub proof fn lemma_chunk_key_ne_meta(key: Seq<char>, i: nat)
    ensures
        spec_chunk_key(key, i) != spec_meta_key(key),
{
    reveal_strlit(":");
    lemma_dec_chars_len(i);
    assert(spec_chunk_key(key, i).len() > spec_meta_key(key).len());
}

} // verus!
