//! The process-local, type-tagged, time-expiring key-value map: the
//! first tier of every tiered lookup.
//!
//! An entry whose expiry time has passed is treated as absent by every
//! reader and is purged lazily, on the read that finds it or on an
//! explicit sweep, never by a background timer. Readers name the kind
//! of value they expect; a stored value of another kind is reported as
//! absent rather than handed out.

use vstd::prelude::*;

verus! {

/// A stored value, tagged with its runtime kind.
#[derive(Debug, Clone, PartialEq, Eq)]
pub enum CacheValue {
    /// A text value.
    Text(String),
    /// A raw byte value.
    Bytes(Vec<u8>),
}

/// The mathematical value of a `CacheValue`.
pub enum CacheValueView {
    Text(Seq<char>),
    Bytes(Seq<u8>),
}

impl View for CacheValue {
    type V = CacheValueView;

    open spec fn view(&self) -> CacheValueView {
        match self {
            CacheValue::Text(s) => CacheValueView::Text(s@),
            CacheValue::Bytes(b) => CacheValueView::Bytes(b@),
        }
    }
}

/// The kind a reader may ask for.
#[derive(Debug, Clone, Copy, PartialEq, Eq, Structural)]
pub enum ValueKind {
    Text,
    Bytes,
}

/// The kind of a stored value.
pub open spec fn kind_of(v: CacheValueView) -> ValueKind {
    match v {
        CacheValueView::Text(_) => ValueKind::Text,
        CacheValueView::Bytes(_) => ValueKind::Bytes,
    }
}

impl CacheValue {
    /// An owned copy with the same mathematical value.
    pub fn duplicate(&self) -> (r: CacheValue)
        ensures
            r@ == self@,
    {
        match self {
            CacheValue::Text(s) => CacheValue::Text(s.clone()),
            CacheValue::Bytes(b) => CacheValue::Bytes(b.clone()),
        }
    }

    /// The runtime kind tag of this value.
    pub fn kind(&self) -> (r: ValueKind)
        ensures
            r == kind_of(self@),
    {
        match self {
            CacheValue::Text(_) => ValueKind::Text,
            CacheValue::Bytes(_) => ValueKind::Bytes,
        }
    }
}

/// One cache entry: a key, its tagged value, and the second after
/// which the entry counts as absent.
pub struct CacheEntry {
    pub key: String,
    pub value: CacheValue,
    pub expires_at: u64,
}

/// The first entry with the given key, scanning front to back.
pub open spec fn spec_find(entries: Seq<CacheEntry>, key: Seq<char>) -> Option<CacheEntry>
    decreases entries.len(),
{
    if entries.len() == 0 {
        None
    } else if entries.first().key@ == key {
        Some(entries.first())
    } else {
        spec_find(entries.drop_first(), key)
    }
}

/// Whether an entry is still live at second `now`.
pub open spec fn spec_live(e: CacheEntry, now: u64) -> bool {
    now < e.expires_at
}

/// The expiry second of an entry written at `now` with `ttl` seconds
/// to live, clamped to the largest representable second.
pub open spec fn spec_expiry(now: u64, ttl: u64) -> u64 {
    if now + ttl <= u64::MAX {
        (now + ttl) as u64
    } else {
        u64::MAX
    }
}

proof fn lemma_find_at(entries: Seq<CacheEntry>, key: Seq<char>, i: int)
    requires
        0 <= i < entries.len(),
        entries[i].key@ == key,
        forall|j: int| 0 <= j < i ==> entries[j].key@ != key,
    ensures
        spec_find(entries, key) == Some(entries[i]),
    decreases entries.len(),
{
    if i > 0 {
        lemma_find_at(entries.drop_first(), key, i - 1);
    }
}

proof fn lemma_find_absent(entries: Seq<CacheEntry>, key: Seq<char>)
    requires
        forall|j: int| 0 <= j < entries.len() ==> entries[j].key@ != key,
    ensures
        spec_find(entries, key) is None,
    decreases entries.len(),
{
    if entries.len() > 0 {
        lemma_find_absent(entries.drop_first(), key);
    }
}

proof fn lemma_find_push(entries: Seq<CacheEntry>, e: CacheEntry, key: Seq<char>)
    ensures
        spec_find(entries.push(e), key) == if spec_find(entries, key) is Some {
            spec_find(entries, key)
        } else if e.key@ == key {
            Some(e)
        } else {
            None
        },
    decreases entries.len(),
{
    if entries.len() == 0 {
        assert(entries.push(e).len() == 1);
        assert(entries.push(e).first() == e);
        assert(entries.push(e).drop_first() =~= Seq::<CacheEntry>::empty());
        assert(spec_find(Seq::<CacheEntry>::empty(), key) is None);
        assert(spec_find(entries, key) is None);
    } else {
        assert(entries.push(e).first() == entries.first());
        lemma_find_push(entries.drop_first(), e, key);
        assert(entries.push(e).drop_first() =~= entries.drop_first().push(e));
    }
}

proof fn lemma_find_remove(entries: Seq<CacheEntry>, i: int, key: Seq<char>)
    requires
        0 <= i < entries.len(),
        forall|a: int, b: int|
            0 <= a < entries.len() && 0 <= b < entries.len() && a != b ==> #[trigger] entries[a].key@
                != #[trigger] entries[b].key@,
    ensures
        entries[i].key@ == key ==> spec_find(entries.remove(i), key) is None,
        entries[i].key@ != key ==> spec_find(entries.remove(i), key) == spec_find(entries, key),
    decreases entries.len(),
{
    if entries[i].key@ == key {
        assert(forall|j: int| 0 <= j < entries.remove(i).len() ==> entries.remove(i)[j].key@ != key);
        lemma_find_absent(entries.remove(i), key);
    } else {
        if i == 0 {
            assert(entries.remove(0) =~= entries.drop_first());
        } else {
            assert(entries.remove(i).drop_first() =~= entries.drop_first().remove(i - 1));
            lemma_find_remove(entries.drop_first(), i - 1, key);
        }
    }
}

/// The process-local cache.
pub struct InstanceCache {
    pub entries: Vec<CacheEntry>,
}

impl InstanceCache {
    /// Every key occurs at most once.
    pub open spec fn wf(&self) -> bool {
        forall|a: int, b: int|
            0 <= a < self.entries@.len() && 0 <= b < self.entries@.len() && a != b
                ==> #[trigger] self.entries@[a].key@ != #[trigger] self.entries@[b].key@
    }

    /// The entry currently stored under `key`, live or not.
    pub open spec fn spec_get(&self, key: Seq<char>) -> Option<CacheEntry> {
        spec_find(self.entries@, key)
    }

    /// An empty cache.
    pub fn new() -> (r: InstanceCache)
        ensures
            r.wf(),
            r.entries@.len() == 0,
            forall|k: Seq<char>| #[trigger] r.spec_get(k) is None,
    {
        let c = InstanceCache { entries: Vec::new() };
        proof {
            assert forall|k: Seq<char>| #[trigger] c.spec_get(k) is None by {
                lemma_find_absent(c.entries@, k);
            }
        }
        c
    }

    /// The index of the entry with `key`, if any.
    fn find_index(&self, key: &String) -> (r: Option<usize>)
        requires
            self.wf(),
        ensures
            r matches Some(i) ==> i < self.entries@.len() && self.entries@[i as int].key@ == key@
                && self.spec_get(key@) == Some(self.entries@[i as int]),
            r is None ==> self.spec_get(key@) is None,
    {
        let n = self.entries.len();
        let mut i: usize = 0;
        while i < n
            invariant
                i <= n,
                n == self.entries@.len(),
                forall|j: int| 0 <= j < i ==> self.entries@[j].key@ != key@,
            decreases n - i,
        {
            if self.entries[i].key == *key {
                proof {
                    lemma_find_at(self.entries@, key@, i as int);
                }
                return Some(i);
            }
            i += 1;
        }
        proof {
            lemma_find_absent(self.entries@, key@);
        }
        None
    }

    /// Reads the value under `key` at second `now`, if one of the
    /// expected kind is stored and still live. An entry found expired
    /// is purged; nothing else changes.
    pub fn get(&mut self, key: &str, kind: ValueKind, now: u64) -> (r: Option<CacheValue>)
        requires
            old(self).wf(),
        ensures
            final(self).wf(),
            r is Some <==> (old(self).spec_get(key@) matches Some(e) && spec_live(e, now)
                && kind_of(e.value@) == kind),
            r matches Some(v) ==> v@ == old(self).spec_get(key@)->Some_0.value@,
            // an entry found expired is purged; all else is untouched
            (old(self).spec_get(key@) matches Some(e) && !spec_live(e, now)) ==> final(self).spec_get(
                key@,
            ) is None,
            !(old(self).spec_get(key@) matches Some(e) && !spec_live(e, now)) ==> *final(self)
                == *old(self),
            forall|k: Seq<char>|
                k != key@ ==> #[trigger] final(self).spec_get(k) == old(self).spec_get(k),
    {
        let owned = key.to_owned();
        match self.find_index(&owned) {
            None => None,
            Some(i) => {
                if now >= self.entries[i].expires_at {
                    proof {
                        lemma_find_remove(self.entries@, i as int, key@);
                        assert forall|k: Seq<char>| k != key@ implies spec_find(
                            self.entries@.remove(i as int),
                            k,
                        ) == spec_find(self.entries@, k) by {
                            lemma_find_remove(self.entries@, i as int, k);
                        }
                    }
                    self.entries.remove(i);
                    None
                } else {
                    let e = &self.entries[i];
                    if e.value.kind() == kind {
                        Some(e.value.duplicate())
                    } else {
                        None
                    }
                }
            },
        }
    }

    /// Reads each key in turn, as `get` does, against the same `now`.
    pub fn multi_get(&mut self, keys: &Vec<String>, kind: ValueKind, now: u64) -> (r: Vec<
        Option<CacheValue>,
    >)
        requires
            old(self).wf(),
        ensures
            final(self).wf(),
            r@.len() == keys@.len(),
            forall|i: int|
                0 <= i < keys@.len() ==> ((#[trigger] r@[i]) is Some <==> (old(self).spec_get(
                    keys@[i]@,
                ) matches Some(e) && spec_live(e, now) && kind_of(e.value@) == kind)),
            forall|i: int|
                0 <= i < keys@.len() && r@[i] is Some ==> (#[trigger] r@[i])->Some_0@ == old(
                    self,
                ).spec_get(keys@[i]@)->Some_0.value@,
            // no entry is added or altered, and live entries survive
            forall|k: Seq<char>|
                #[trigger] final(self).spec_get(k) is Some ==> final(self).spec_get(k) == old(
                    self,
                ).spec_get(k),
            forall|k: Seq<char>|
                (#[trigger] old(self).spec_get(k) matches Some(e) && spec_live(e, now))
                    ==> final(self).spec_get(k) == old(self).spec_get(k),
    {
        let n = keys.len();
        let mut out: Vec<Option<CacheValue>> = Vec::new();
        let mut i: usize = 0;
        while i < n
            invariant
                i <= n,
                n == keys@.len(),
                out@.len() == i as int,
                self.wf(),
                forall|k: Seq<char>|
                    #[trigger] self.spec_get(k) is Some ==> self.spec_get(k) == old(
                        self,
                    ).spec_get(k),
                forall|k: Seq<char>|
                    (#[trigger] old(self).spec_get(k) matches Some(e) && spec_live(e, now))
                        ==> self.spec_get(k) == old(self).spec_get(k),
                forall|j: int|
                    0 <= j < i ==> ((#[trigger] out@[j]) is Some <==> (old(self).spec_get(
                        keys@[j]@,
                    ) matches Some(e) && spec_live(e, now) && kind_of(e.value@) == kind)),
                forall|j: int|
                    0 <= j < i && out@[j] is Some ==> (#[trigger] out@[j])->Some_0@ == old(
                        self,
                    ).spec_get(keys@[j]@)->Some_0.value@,
            decreases n - i,
        {
            let v = self.get(keys[i].as_str(), kind, now);
            out.push(v);
            i += 1;
        }
        out
    }

    /// Stores `value` under `key` with `ttl_secs` seconds to live from
    /// `now`, replacing whatever was there.
    pub fn set(&mut self, key: &str, value: CacheValue, ttl_secs: u64, now: u64)
        requires
            old(self).wf(),
        ensures
            final(self).wf(),
            final(self).spec_get(key@) matches Some(e) && e.key@ == key@ && e.value@ == value@
                && e.expires_at == spec_expiry(now, ttl_secs),
            forall|k: Seq<char>|
                k != key@ ==> #[trigger] final(self).spec_get(k) == old(self).spec_get(k),
    {
        let expires_at = if ttl_secs <= u64::MAX - now {
            now + ttl_secs
        } else {
            u64::MAX
        };
        let owned = key.to_owned();
        match self.find_index(&owned) {
            Some(i) => {
                proof {
                    lemma_find_remove(self.entries@, i as int, key@);
                    assert forall|k: Seq<char>| k != key@ implies spec_find(
                        self.entries@.remove(i as int),
                        k,
                    ) == spec_find(self.entries@, k) by {
                        lemma_find_remove(self.entries@, i as int, k);
                    }
                }
                self.entries.remove(i);
            },
            None => {},
        }
        let ghost pre = self.entries@;
        let entry = CacheEntry { key: owned, value, expires_at };
        proof {
            lemma_find_push(pre, entry, key@);
            assert forall|k: Seq<char>| k != key@ implies spec_find(pre.push(entry), k)
                == spec_find(pre, k) by {
                lemma_find_push(pre, entry, k);
            }
            // uniqueness: the key was just removed or absent
            assert(spec_find(pre, key@) is None);
            lemma_absent_means_no_index(pre, key@);
        }
        self.entries.push(entry);
    }

    /// Removes the entry under `key`, if any.
    pub fn delete(&mut self, key: &str)
        requires
            old(self).wf(),
        ensures
            final(self).wf(),
            final(self).spec_get(key@) is None,
            forall|k: Seq<char>|
                k != key@ ==> #[trigger] final(self).spec_get(k) == old(self).spec_get(k),
    {
        let owned = key.to_owned();
        match self.find_index(&owned) {
            Some(i) => {
                proof {
                    lemma_find_remove(self.entries@, i as int, key@);
                    assert forall|k: Seq<char>| k != key@ implies spec_find(
                        self.entries@.remove(i as int),
                        k,
                    ) == spec_find(self.entries@, k) by {
                        lemma_find_remove(self.entries@, i as int, k);
                    }
                }
                self.entries.remove(i);
            },
            None => {},
        }
    }

    /// Purges every entry that is no longer live at `now`.
    pub fn clear_old_cache(&mut self, now: u64)
        requires
            old(self).wf(),
        ensures
            final(self).wf(),
            forall|k: Seq<char>|
                #[trigger] final(self).spec_get(k) == if old(self).spec_get(k) matches Some(e)
                    && spec_live(e, now) {
                    old(self).spec_get(k)
                } else {
                    None
                },
            forall|i: int|
                0 <= i < final(self).entries@.len() ==> spec_live(
                    #[trigger] final(self).entries@[i],
                    now,
                ),
    {
        let ghost orig = old(self).entries@;
        let n = self.entries.len();
        let mut kept: Vec<CacheEntry> = Vec::new();
        let mut i: usize = 0;
        while i < n
            invariant
                i <= n,
                n == orig.len(),
                orig == old(self).entries@,
                old(self).wf(),
                self.entries@ == orig.skip(i as int),
                forall|j: int|
                    0 <= j < kept@.len() ==> exists|l: int|
                        0 <= l < i && orig[l] == #[trigger] kept@[j],
                forall|j: int| 0 <= j < kept@.len() ==> spec_live(#[trigger] kept@[j], now),
                forall|a: int, b: int|
                    0 <= a < kept@.len() && 0 <= b < kept@.len() && a != b
                        ==> #[trigger] kept@[a].key@ != #[trigger] kept@[b].key@,
                forall|k: Seq<char>|
                    #[trigger] spec_find(kept@, k) == if spec_find(
                        orig.take(i as int),
                        k,
                    ) matches Some(e) && spec_live(e, now) {
                        spec_find(orig.take(i as int), k)
                    } else {
                        None
                    },
            decreases n - i,
        {
            proof {
                assert(self.entries@.len() == n - i);
            }
            let e = self.entries.remove(0);
            let ghost pre_kept = kept@;
            let ghost entry = orig[i as int];
            proof {
                assert(orig.skip(i as int).remove(0) =~= orig.skip(i as int + 1));
                assert(e == entry);
            }
            let live = now < e.expires_at;
            if live {
                proof {
                    // the new entry's key is fresh among the kept ones:
                    // everything kept came from earlier source indices
                    assert forall|a: int| 0 <= a < pre_kept.len() implies pre_kept[a].key@
                        != entry.key@ by {
                        let l = choose|l: int| 0 <= l < i && orig[l] == pre_kept[a];
                        assert(orig[l].key@ != orig[i as int].key@);
                    }
                }
                kept.push(e);
            }
            i += 1;
            proof {
                let taken = orig.take(i as int);
                assert(taken.drop_last() =~= orig.take(i as int - 1));
                assert(taken.last() == entry);
                assert forall|k: Seq<char>| #[trigger] spec_find(kept@, k) == if spec_find(
                    taken,
                    k,
                ) matches Some(e2) && spec_live(e2, now) {
                    spec_find(taken, k)
                } else {
                    None
                } by {
                    lemma_find_take_extend(orig, i as int, k);
                    if live {
                        lemma_find_push(pre_kept, entry, k);
                    }
                    if spec_find(taken.drop_last(), k) is Some {
                        // a hit before this entry: uniqueness of the
                        // source rules out a second entry with its key
                        let prior = spec_find(taken.drop_last(), k)->Some_0;
                        lemma_find_some_index(taken.drop_last(), k);
                        if entry.key@ == k {
                            let l = choose|l: int|
                                0 <= l < taken.drop_last().len() && taken.drop_last()[l] == prior
                                    && taken.drop_last()[l].key@ == k;
                            assert(orig[l] == prior);
                            assert(false);
                        }
                    } else {
                        if spec_find(pre_kept, k) is Some {
                            let kp = spec_find(pre_kept, k)->Some_0;
                            // anything kept so far came from the scanned
                            // prefix, so it would have been a hit there
                            lemma_find_some_index(pre_kept, k);
                            let j = choose|j: int|
                                0 <= j < pre_kept.len() && pre_kept[j] == kp && pre_kept[j].key@
                                    == k;
                            let l = choose|l: int| 0 <= l < i - 1 && orig[l] == pre_kept[j];
                            lemma_absent_means_no_index(taken.drop_last(), k);
                            assert(taken.drop_last()[l] == orig[l]);
                            assert(false);
                        }
                    }
                }
            }
        }
        self.entries = kept;
        proof {
            assert(orig.take(n as int) =~= orig);
        }
    }

    /// The keys of the entries still live at `now`, after a purge.
    pub fn get_keys(&mut self, now: u64) -> (r: Vec<String>)
        requires
            old(self).wf(),
        ensures
            final(self).wf(),
            r@.len() == final(self).entries@.len(),
            forall|i: int|
                0 <= i < r@.len() ==> #[trigger] r@[i]@ == final(self).entries@[i].key@,
            forall|k: Seq<char>|
                #[trigger] final(self).spec_get(k) == if old(self).spec_get(k) matches Some(e)
                    && spec_live(e, now) {
                    old(self).spec_get(k)
                } else {
                    None
                },
    {
        self.clear_old_cache(now);
        let n = self.entries.len();
        let mut out: Vec<String> = Vec::new();
        let mut i: usize = 0;
        while i < n
            invariant
                i <= n,
                n == self.entries@.len(),
                out@.len() == i as int,
                forall|j: int| 0 <= j < i ==> #[trigger] out@[j]@ == self.entries@[j].key@,
            decreases n - i,
        {
            out.push(self.entries[i].key.clone());
            i += 1;
        }
        out
    }

    /// How many entries are still live at `now`, after a purge.
    pub fn get_len(&mut self, now: u64) -> (r: usize)
        requires
            old(self).wf(),
        ensures
            final(self).wf(),
            r == final(self).entries@.len(),
            forall|k: Seq<char>|
                #[trigger] final(self).spec_get(k) == if old(self).spec_get(k) matches Some(e)
                    && spec_live(e, now) {
                    old(self).spec_get(k)
                } else {
                    None
                },
    {
        self.clear_old_cache(now);
        self.entries.len()
    }
}

proof fn lemma_absent_means_no_index(entries: Seq<CacheEntry>, key: Seq<char>)
    requires
        spec_find(entries, key) is None,
    ensures
        forall|j: int| 0 <= j < entries.len() ==> entries[j].key@ != key,
    decreases entries.len(),
{
    if entries.len() > 0 {
        lemma_absent_means_no_index(entries.drop_first(), key);
        assert(forall|j: int|
            1 <= j < entries.len() ==> entries[j] == entries.drop_first()[j - 1]);
    }
}

proof fn lemma_find_take_extend(entries: Seq<CacheEntry>, i: int, key: Seq<char>)
    requires
        0 < i <= entries.len(),
    ensures
        spec_find(entries.take(i), key) == if spec_find(entries.take(i - 1), key) is Some {
            spec_find(entries.take(i - 1), key)
        } else if entries[i - 1].key@ == key {
            Some(entries[i - 1])
        } else {
            None
        },
{
    assert(entries.take(i) =~= entries.take(i - 1).push(entries[i - 1]));
    lemma_find_push(entries.take(i - 1), entries[i - 1], key);
}

/// An entry stored with no time to live is already absent to a read
/// at the same second or any later one: `spec_expiry(now, 0)` is `now`
/// itself, and liveness demands a strictly earlier reading instant.
pub proof fn lemma_zero_ttl_expires_immediately(e: CacheEntry, now: u64, later: u64)
    requires
        e.expires_at == spec_expiry(now, 0),
        later >= now,
    ensures
        !spec_live(e, later),
{
}

proof fn lemma_find_some_index(entries: Seq<CacheEntry>, key: Seq<char>)
    requires
        spec_find(entries, key) is Some,
    ensures
        exists|j: int|
            0 <= j < entries.len() && entries[j] == spec_find(entries, key)->Some_0
                && entries[j].key@ == key,
    decreases entries.len(),
{
    if entries.first().key@ == key {
        assert(entries[0] == spec_find(entries, key)->Some_0);
    } else {
        lemma_find_some_index(entries.drop_first(), key);
        let j = choose|j: int|
            0 <= j < entries.drop_first().len() && entries.drop_first()[j] == spec_find(
                entries.drop_first(),
                key,
            )->Some_0 && entries.drop_first()[j].key@ == key;
        assert(entries[j + 1] == entries.drop_first()[j]);
    }
}

} // verus!
