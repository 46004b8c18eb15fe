//! The batched publisher: records enter a bounded intake queue, a
//! grouping step appends each dequeued record to its destination's
//! open batch and flushes the batch when the count or byte threshold
//! is reached, and a timer step flushes every non-empty open batch.
//!
//! Acceptance into the queue is the only guarantee offered upstream:
//! a flushed batch is encoded record by record (records that fail
//! encoding are dropped, not retried) and handed to the broker; a
//! failed broker send is summarized as one dead-letter record built
//! from the first record's identity, which re-enters through the same
//! publish path, bound for the fixed dead-letter destination.
//!
//! The embedding program runs the loops and performs the broker sends;
//! every decision — admission, grouping, thresholds, swaps, encoding,
//! dead-letter synthesis — is made here.

use vstd::prelude::*;

use crate::encoder::{avro_datum_of, spec_first_missing, spec_reconciled, AvroParser, Schema};
use crate::errors::PublishError;
use crate::records::{
    fields_view, record_data_len, record_json, record_json_bytes, FieldValue,
    FieldValueView,
};

verus! {

/// How many records the intake queue admits.
pub const QUEUE_CAPACITY: usize = 1000;

/// A record bound for a destination, identified by dataset and table.
pub struct StatWithMetadata {
    pub dataset_id: String,
    pub table_id: String,
    pub stat: Vec<(String, FieldValue)>,
}

/// The mathematical value of a queued record.
pub struct StatView {
    pub dataset_id: Seq<char>,
    pub table_id: Seq<char>,
    pub stat: Seq<(Seq<char>, FieldValueView)>,
}

impl View for StatWithMetadata {
    type V = StatView;

    open spec fn view(&self) -> StatView {
        StatView {
            dataset_id: self.dataset_id@,
            table_id: self.table_id@,
            stat: fields_view(self.stat@),
        }
    }
}

/// The destination a record is grouped under: `"{dataset}_{table}"`.
pub open spec fn spec_topic(v: StatView) -> Seq<char> {
    v.dataset_id + "_"@ + v.table_id
}

/// Builds the destination of a record.
pub fn topic_of(s: &StatWithMetadata) -> (r: String)
    ensures
        r@ == spec_topic(s@),
{
    let mut t = s.dataset_id.clone();
    t.append("_");
    t.append(s.table_id.as_str());
    proof {
        assert(t@ =~= spec_topic(s@));
    }
    t
}

/// The serialized size of one record.
pub open spec fn spec_data_len(stat: Seq<(Seq<char>, FieldValueView)>) -> nat {
    record_json_bytes(stat).len()
}

/// The cumulative serialized size of a batch.
pub open spec fn spec_batch_bytes(batch: Seq<StatWithMetadata>) -> nat
    decreases batch.len(),
{
    if batch.len() == 0 {
        0
    } else {
        spec_batch_bytes(batch.drop_last()) + spec_data_len(batch.last()@.stat)
    }
}

/// Whether a batch must be flushed under the given thresholds.
pub open spec fn spec_over_threshold(
    batch: Seq<StatWithMetadata>,
    max_messages: usize,
    max_bytes: usize,
) -> bool {
    batch.len() >= max_messages || spec_batch_bytes(batch) >= max_bytes
}

/// The first open batch under `topic`, scanning front to back.
pub open spec fn spec_buffer_entry(
    bufs: Seq<(String, Vec<StatWithMetadata>)>,
    topic: Seq<char>,
) -> Option<(String, Vec<StatWithMetadata>)>
    decreases bufs.len(),
{
    if bufs.len() == 0 {
        None
    } else if bufs.first().0@ == topic {
        Some(bufs.first())
    } else {
        spec_buffer_entry(bufs.drop_first(), topic)
    }
}

proof fn lemma_buf_at(bufs: Seq<(String, Vec<StatWithMetadata>)>, topic: Seq<char>, i: int)
    requires
        0 <= i < bufs.len(),
        bufs[i].0@ == topic,
        forall|j: int| 0 <= j < i ==> bufs[j].0@ != topic,
    ensures
        spec_buffer_entry(bufs, topic) == Some(bufs[i]),
    decreases bufs.len(),
{
    if i > 0 {
        lemma_buf_at(bufs.drop_first(), topic, i - 1);
    }
}

proof fn lemma_buf_absent(bufs: Seq<(String, Vec<StatWithMetadata>)>, topic: Seq<char>)
    requires
        forall|j: int| 0 <= j < bufs.len() ==> bufs[j].0@ != topic,
    ensures
        spec_buffer_entry(bufs, topic) is None,
    decreases bufs.len(),
{
    if bufs.len() > 0 {
        lemma_buf_absent(bufs.drop_first(), topic);
    }
}

proof fn lemma_buf_update(
    bufs: Seq<(String, Vec<StatWithMetadata>)>,
    i: int,
    x: (String, Vec<StatWithMetadata>),
    topic: Seq<char>,
)
    requires
        0 <= i < bufs.len(),
        x.0@ == bufs[i].0@,
        forall|a: int, b: int|
            0 <= a < bufs.len() && 0 <= b < bufs.len() && a != b ==> #[trigger] bufs[a].0@
                != #[trigger] bufs[b].0@,
    ensures
        bufs[i].0@ == topic ==> spec_buffer_entry(bufs.update(i, x), topic) == Some(x),
        bufs[i].0@ != topic ==> spec_buffer_entry(bufs.update(i, x), topic) == spec_buffer_entry(
            bufs,
            topic,
        ),
{
    let updated = bufs.update(i, x);
    if bufs[i].0@ == topic {
        lemma_buf_at(updated, topic, i);
    } else {
        if spec_buffer_entry(bufs, topic) is Some {
            lemma_buf_some_index(bufs, topic);
            let j = choose|j: int|
                0 <= j < bufs.len() && bufs[j] == spec_buffer_entry(bufs, topic)->Some_0 && bufs[j].0@
                    == topic && forall|l: int| 0 <= l < j ==> bufs[l].0@ != topic;
            lemma_buf_at(updated, topic, j);
            lemma_buf_at(bufs, topic, j);
        } else {
            lemma_buf_no_index(bufs, topic);
            lemma_buf_absent(updated, topic);
        }
    }
}

proof fn lemma_buf_some_index(bufs: Seq<(String, Vec<StatWithMetadata>)>, topic: Seq<char>)
    requires
        spec_buffer_entry(bufs, topic) is Some,
    ensures
        exists|j: int|
            0 <= j < bufs.len() && bufs[j] == spec_buffer_entry(bufs, topic)->Some_0 && bufs[j].0@
                == topic && forall|l: int| 0 <= l < j ==> bufs[l].0@ != topic,
    decreases bufs.len(),
{
    if bufs.first().0@ == topic {
        assert(bufs[0] == spec_buffer_entry(bufs, topic)->Some_0 && bufs[0].0@ == topic && forall|
            l: int,
        | 0 <= l < 0 ==> bufs[l].0@ != topic);
    } else {
        lemma_buf_some_index(bufs.drop_first(), topic);
        let j = choose|j: int|
            0 <= j < bufs.drop_first().len() && bufs.drop_first()[j] == spec_buffer_entry(
                bufs.drop_first(),
                topic,
            )->Some_0 && bufs.drop_first()[j].0@ == topic && forall|l: int|
                0 <= l < j ==> bufs.drop_first()[l].0@ != topic;
        assert(bufs[j + 1] == bufs.drop_first()[j]);
        assert(forall|l: int| 1 <= l < j + 1 ==> bufs[l] == bufs.drop_first()[l - 1]);
        assert(bufs[j + 1] == spec_buffer_entry(bufs, topic)->Some_0 && bufs[j + 1].0@ == topic
            && forall|l: int| 0 <= l < j + 1 ==> bufs[l].0@ != topic);
    }
}

proof fn lemma_buf_no_index(bufs: Seq<(String, Vec<StatWithMetadata>)>, topic: Seq<char>)
    requires
        spec_buffer_entry(bufs, topic) is None,
    ensures
        forall|j: int| 0 <= j < bufs.len() ==> bufs[j].0@ != topic,
    decreases bufs.len(),
{
    if bufs.len() > 0 {
        lemma_buf_no_index(bufs.drop_first(), topic);
        assert(forall|j: int| 1 <= j < bufs.len() ==> bufs[j] == bufs.drop_first()[j - 1]);
    }
}

proof fn lemma_buf_push(
    bufs: Seq<(String, Vec<StatWithMetadata>)>,
    x: (String, Vec<StatWithMetadata>),
    topic: Seq<char>,
)
    ensures
        spec_buffer_entry(bufs.push(x), topic) == if spec_buffer_entry(bufs, topic) is Some {
            spec_buffer_entry(bufs, topic)
        } else if x.0@ == topic {
            Some(x)
        } else {
            None
        },
    decreases bufs.len(),
{
    if bufs.len() == 0 {
        assert(bufs.push(x).len() == 1);
        assert(bufs.push(x).first() == x);
        assert(bufs.push(x).drop_first() =~= Seq::<(String, Vec<StatWithMetadata>)>::empty());
        assert(spec_buffer_entry(
            Seq::<(String, Vec<StatWithMetadata>)>::empty(),
            topic,
        ) is None);
    } else {
        assert(bufs.push(x).first() == bufs.first());
        lemma_buf_push(bufs.drop_first(), x, topic);
        assert(bufs.push(x).drop_first() =~= bufs.drop_first().push(x));
    }
}

/// What one grouping step did.
pub enum StepOutcome {
    /// The queue was empty; nothing changed.
    Idle,
    /// The dequeued record joined its destination's open batch, which
    /// stays below both thresholds.
    Appended,
    /// The dequeued record pushed its destination's open batch over a
    /// threshold: the batch was swapped out, left empty, and is handed
    /// out here for an asynchronous flush.
    Flushed(String, Vec<StatWithMetadata>),
}

/// The batched publisher's state: the bounded intake queue and the
/// per-destination open batches.
pub struct PubSubPublisher {
    pub queue: Vec<StatWithMetadata>,
    pub stat_buffers: Vec<(String, Vec<StatWithMetadata>)>,
}

impl PubSubPublisher {
    /// Every destination owns at most one open batch.
    pub open spec fn wf(&self) -> bool {
        forall|a: int, b: int|
            0 <= a < self.stat_buffers@.len() && 0 <= b < self.stat_buffers@.len() && a != b
                ==> #[trigger] self.stat_buffers@[a].0@ != #[trigger] self.stat_buffers@[b].0@
    }

    /// The open batch of `topic`, if one has ever been created.
    pub open spec fn spec_open_batch(&self, topic: Seq<char>) -> Option<Seq<StatWithMetadata>> {
        match spec_buffer_entry(self.stat_buffers@, topic) {
            Some(p) => Some(p.1@),
            None => None,
        }
    }

    /// A publisher with an empty queue and no open batches.
    pub fn new() -> (r: PubSubPublisher)
        ensures
            r.wf(),
            r.queue@.len() == 0,
            r.stat_buffers@.len() == 0,
    {
        PubSubPublisher { queue: Vec::new(), stat_buffers: Vec::new() }
    }

    /// Admits a record into the intake queue, or reports back-pressure
    /// where the queue is at capacity. Admission is the only promise
    /// made to the caller; delivery is not.
    pub fn publish(
        &mut self,
        dataset_id: String,
        table_id: String,
        stat: Vec<(String, FieldValue)>,
    ) -> (r: Result<(), PublishError>)
        requires
            old(self).wf(),
        ensures
            final(self).wf(),
            final(self).stat_buffers@ == old(self).stat_buffers@,
            old(self).queue@.len() < QUEUE_CAPACITY ==> {
                &&& r is Ok
                &&& final(self).queue@.len() == old(self).queue@.len() + 1
                &&& final(self).queue@.drop_last() == old(self).queue@
                &&& final(self).queue@.last()@ == (StatView {
                    dataset_id: dataset_id@,
                    table_id: table_id@,
                    stat: fields_view(stat@),
                })
            },
            old(self).queue@.len() >= QUEUE_CAPACITY ==> (r == Err::<(), PublishError>(
                PublishError::QueueFull,
            ) && *final(self) == *old(self)),
    {
        if self.queue.len() >= QUEUE_CAPACITY {
            return Err(PublishError::QueueFull);
        }
        let rec = StatWithMetadata { dataset_id, table_id, stat };
        self.queue.push(rec);
        proof {
            assert(final(self).queue@.drop_last() =~= old(self).queue@);
        }
        Ok(())
    }

    /// The index of the open batch of `topic`, if any.
    fn find_buffer(&self, topic: &String) -> (r: Option<usize>)
        requires
            self.wf(),
        ensures
            r matches Some(i) ==> i < self.stat_buffers@.len() && self.stat_buffers@[i as int].0@
                == topic@ && spec_buffer_entry(self.stat_buffers@, topic@) == Some(
                self.stat_buffers@[i as int],
            ),
            r is None ==> spec_buffer_entry(self.stat_buffers@, topic@) is None,
    {
        let n = self.stat_buffers.len();
        let mut i: usize = 0;
        while i < n
            invariant
                i <= n,
                n == self.stat_buffers@.len(),
                forall|j: int| 0 <= j < i ==> self.stat_buffers@[j].0@ != topic@,
            decreases n - i,
        {
            if self.stat_buffers[i].0 == *topic {
                proof {
                    lemma_buf_at(self.stat_buffers@, topic@, i as int);
                }
                return Some(i);
            }
            i += 1;
        }
        proof {
            lemma_buf_absent(self.stat_buffers@, topic@);
        }
        None
    }

    /// One grouping step: dequeues the front record, appends it to its
    /// destination's open batch (created on first use), and swaps the
    /// batch out for an empty one exactly where the count or byte
    /// threshold is reached. The swapped-out batch is handed back for
    /// an asynchronous flush; no record is lost or duplicated.
    pub fn process_next(&mut self, max_messages: usize, max_bytes: usize) -> (r: StepOutcome)
        requires
            old(self).wf(),
        ensures
            final(self).wf(),
            old(self).queue@.len() == 0 ==> (r is Idle && *final(self) == *old(self)),
            old(self).queue@.len() > 0 ==> {
                let rec = old(self).queue@.first();
                let topic = spec_topic(rec@);
                let open = match old(self).spec_open_batch(topic) {
                    Some(b) => b,
                    None => Seq::empty(),
                };
                let grown = open.push(rec);
                &&& final(self).queue@ == old(self).queue@.drop_first()
                &&& forall|t: Seq<char>|
                    t != topic ==> #[trigger] final(self).spec_open_batch(t) == old(
                        self,
                    ).spec_open_batch(t)
                &&& (spec_over_threshold(grown, max_messages, max_bytes) ==> (r matches
                    StepOutcome::Flushed(ft, fb) && ft@ == topic && fb@ == grown
                    && final(self).spec_open_batch(topic) == Some(
                    Seq::<StatWithMetadata>::empty(),
                )))
                &&& (!spec_over_threshold(grown, max_messages, max_bytes) ==> (r is Appended
                    && final(self).spec_open_batch(topic) == Some(grown)))
            },
    {
        if self.queue.len() == 0 {
            return StepOutcome::Idle;
        }
        let rec = self.queue.remove(0);
        proof {
            assert(self.queue@ =~= old(self).queue@.drop_first());
        }
        let topic = topic_of(&rec);
        let idx = match self.find_buffer(&topic) {
            Some(i) => i,
            None => {
                let fresh: Vec<StatWithMetadata> = Vec::new();
                let created = self.stat_buffers.len();
                let ghost pre_push = self.stat_buffers@;
                self.stat_buffers.push((topic.clone(), fresh));
                proof {
                    lemma_buf_no_index(pre_push, topic@);
                    lemma_buf_push(pre_push, self.stat_buffers@.last(), topic@);
                    assert forall|t: Seq<char>| t != topic@ implies spec_buffer_entry(
                        self.stat_buffers@,
                        t,
                    ) == spec_buffer_entry(pre_push, t) by {
                        lemma_buf_push(pre_push, self.stat_buffers@.last(), t);
                    }
                    // the fresh entry's destination was absent before
                    assert forall|a: int, b: int|
                        0 <= a < self.stat_buffers@.len() && 0 <= b < self.stat_buffers@.len()
                            && a != b implies #[trigger] self.stat_buffers@[a].0@
                        != #[trigger] self.stat_buffers@[b].0@ by {
                        if a < pre_push.len() && b < pre_push.len() {
                            assert(self.stat_buffers@[a] == pre_push[a]);
                            assert(self.stat_buffers@[b] == pre_push[b]);
                        }
                    }
                }
                created
            },
        };
        let ghost mid = self.stat_buffers@;
        let ghost open = mid[idx as int].1@;
        let pair = self.stat_buffers.remove(idx);
        let t = pair.0;
        let mut batch = pair.1;
        batch.push(rec);
        // measure the grown batch
        let count = batch.len();
        let bytes = batch_bytes(&batch);
        let flush = count >= max_messages || bytes >= max_bytes;
        if flush {
            self.stat_buffers.insert(idx, (t.clone(), Vec::new()));
            proof {
                assert(self.stat_buffers@ =~= mid.update(idx as int, self.stat_buffers@[idx as int]));
                lemma_update_effects(mid, idx as int, self.stat_buffers@[idx as int], topic@);
            }
            StepOutcome::Flushed(t, batch)
        } else {
            self.stat_buffers.insert(idx, (t, batch));
            proof {
                assert(self.stat_buffers@ =~= mid.update(idx as int, self.stat_buffers@[idx as int]));
                lemma_update_effects(mid, idx as int, self.stat_buffers@[idx as int], topic@);
            }
            StepOutcome::Appended
        }
    }

    /// The timer step: swaps out and hands back every non-empty open
    /// batch, in destination order, leaving each destination with an
    /// empty open batch; the queue is untouched.
    pub fn tick(&mut self) -> (r: Vec<(String, Vec<StatWithMetadata>)>)
        requires
            old(self).wf(),
        ensures
            final(self).wf(),
            final(self).queue@ == old(self).queue@,
            final(self).stat_buffers@.len() == old(self).stat_buffers@.len(),
            forall|i: int|
                0 <= i < old(self).stat_buffers@.len() ==> ((#[trigger] final(self).stat_buffers@[i]).0
                    == old(self).stat_buffers@[i].0 && final(self).stat_buffers@[i].1@.len() == 0),
            r@ == spec_nonempty_batches(old(self).stat_buffers@),
    {
        let n = self.stat_buffers.len();
        let mut out: Vec<(String, Vec<StatWithMetadata>)> = Vec::new();
        let mut i: usize = 0;
        while i < n
            invariant
                i <= n,
                n == old(self).stat_buffers@.len(),
                self.queue@ == old(self).queue@,
                self.stat_buffers@.len() == n,
                old(self).wf(),
                forall|j: int|
                    i <= j < n ==> #[trigger] self.stat_buffers@[j] == old(self).stat_buffers@[j],
                forall|j: int|
                    0 <= j < i ==> ((#[trigger] self.stat_buffers@[j]).0 == old(
                        self,
                    ).stat_buffers@[j].0 && self.stat_buffers@[j].1@.len() == 0),
                out@ == spec_nonempty_batches(old(self).stat_buffers@.take(i as int)),
            decreases n - i,
        {
            let ghost pre = self.stat_buffers@;
            let is_empty = self.stat_buffers[i].1.is_empty();
            if !is_empty {
                let pair = self.stat_buffers.remove(i);
                let replacement = pair.0.clone();
                proof {
                    assert(pair == pre[i as int]);
                    assert(replacement@ == pre[i as int].0@);
                    assert(replacement == pre[i as int].0);
                }
                self.stat_buffers.insert(i, (replacement, Vec::new()));
                proof {
                    assert(self.stat_buffers@[i as int].0 == pre[i as int].0);
                    assert(self.stat_buffers@[i as int].1@.len() == 0);
                }
                out.push(pair);
            }
            i += 1;
            proof {
                let taken = old(self).stat_buffers@.take(i as int);
                assert(taken.drop_last() =~= old(self).stat_buffers@.take(i as int - 1));
                assert(taken.last() == old(self).stat_buffers@[i as int - 1]);
                if !is_empty {
                    assert(self.stat_buffers@ =~= pre.update(
                        i as int - 1,
                        self.stat_buffers@[i as int - 1],
                    ));
                }
                assert(out@ =~= spec_nonempty_batches(taken));
                assert forall|j: int| 0 <= j < i implies ((#[trigger] self.stat_buffers@[j]).0
                    == old(self).stat_buffers@[j].0 && self.stat_buffers@[j].1@.len() == 0) by {
                    if j < i - 1 {
                        assert(self.stat_buffers@[j] == pre[j]);
                    } else if !is_empty {
                        assert(self.stat_buffers@[j].0 == pre[j].0);
                        assert(pre[j] == old(self).stat_buffers@[j]);
                        assert(self.stat_buffers@[j].1@.len() == 0);
                    } else {
                        assert(self.stat_buffers@[j] == pre[j]);
                        assert(pre[j] == old(self).stat_buffers@[j]);
                    }
                }
            }
        }
        proof {
            assert(old(self).stat_buffers@.take(n as int) =~= old(self).stat_buffers@);
            assert forall|a: int, b: int|
                0 <= a < self.stat_buffers@.len() && 0 <= b < self.stat_buffers@.len() && a
                    != b implies #[trigger] self.stat_buffers@[a].0@
                != #[trigger] self.stat_buffers@[b].0@ by {
                assert(self.stat_buffers@[a].0 == old(self).stat_buffers@[a].0);
                assert(self.stat_buffers@[b].0 == old(self).stat_buffers@[b].0);
            }
        }
        out
    }
}

proof fn lemma_update_effects(
    bufs: Seq<(String, Vec<StatWithMetadata>)>,
    i: int,
    x: (String, Vec<StatWithMetadata>),
    topic: Seq<char>,
)
    requires
        0 <= i < bufs.len(),
        x.0@ == bufs[i].0@,
        bufs[i].0@ == topic,
        forall|a: int, b: int|
            0 <= a < bufs.len() && 0 <= b < bufs.len() && a != b ==> #[trigger] bufs[a].0@
                != #[trigger] bufs[b].0@,
    ensures
        spec_buffer_entry(bufs.update(i, x), topic) == Some(x),
        forall|t: Seq<char>|
            t != topic ==> #[trigger] spec_buffer_entry(bufs.update(i, x), t) == spec_buffer_entry(
                bufs,
                t,
            ),
        forall|a: int, b: int|
            0 <= a < bufs.update(i, x).len() && 0 <= b < bufs.update(i, x).len() && a != b
                ==> #[trigger] bufs.update(i, x)[a].0@ != #[trigger] bufs.update(i, x)[b].0@,
{
    lemma_buf_update(bufs, i, x, topic);
    assert forall|t: Seq<char>| t != topic implies #[trigger] spec_buffer_entry(
        bufs.update(i, x),
        t,
    ) == spec_buffer_entry(bufs, t) by {
        lemma_buf_update(bufs, i, x, t);
    }
}

/// The non-empty open batches, in destination order.
pub open spec fn spec_nonempty_batches(bufs: Seq<(String, Vec<StatWithMetadata>)>) -> Seq<
    (String, Vec<StatWithMetadata>),
>
    decreases bufs.len(),
{
    if bufs.len() == 0 {
        Seq::empty()
    } else if bufs.last().1@.len() > 0 {
        spec_nonempty_batches(bufs.drop_last()).push(bufs.last())
    } else {
        spec_nonempty_batches(bufs.drop_last())
    }
}

/// The cumulative serialized size of a batch, saturating at the
/// machine word; the saturated comparison against a threshold agrees
/// with the mathematical one.
pub fn batch_bytes(batch: &Vec<StatWithMetadata>) -> (r: usize)
    ensures
        r as nat == if spec_batch_bytes(batch@) <= usize::MAX as nat {
            spec_batch_bytes(batch@)
        } else {
            usize::MAX as nat
        },
{
    let n = batch.len();
    let mut total: usize = 0;
    let mut i: usize = 0;
    while i < n
        invariant
            i <= n,
            n == batch@.len(),
            total as nat == if spec_batch_bytes(batch@.take(i as int)) <= usize::MAX as nat {
                spec_batch_bytes(batch@.take(i as int))
            } else {
                usize::MAX as nat
            },
        decreases n - i,
    {
        let l = record_data_len(&batch[i].stat);
        total = if total <= usize::MAX - l {
            total + l
        } else {
            usize::MAX
        };
        i += 1;
        proof {
            assert(batch@.take(i as int).drop_last() =~= batch@.take(i as int - 1));
            assert(batch@.take(i as int).last() == batch@[i as int - 1]);
        }
    }
    proof {
        assert(batch@.take(n as int) =~= batch@);
    }
    total
}

/// What encoding one record of a batch yields: the wire bytes where
/// reconciliation and encoding both succeed, nothing otherwise.
pub open spec fn spec_encode_one(stat: Seq<(Seq<char>, FieldValueView)>, schema: Schema) -> Option<
    Seq<u8>,
> {
    if spec_first_missing(stat, schema.record@, 0) is None {
        avro_datum_of(schema.definition@, spec_reconciled(stat, schema.record@))
    } else {
        None
    }
}

/// The encodings of a batch's records in order, failures dropped.
pub open spec fn spec_encoded_batch(batch: Seq<StatWithMetadata>, schema: Schema) -> Seq<Seq<u8>>
    decreases batch.len(),
{
    if batch.len() == 0 {
        Seq::empty()
    } else {
        match spec_encode_one(batch.last()@.stat, schema) {
            Some(b) => spec_encoded_batch(batch.drop_last(), schema).push(b),
            None => spec_encoded_batch(batch.drop_last(), schema),
        }
    }
}

/// The views of encoded messages.
pub open spec fn bytes_views(s: Seq<Vec<u8>>) -> Seq<Seq<u8>> {
    Seq::new(s.len(), |i: int| s[i]@)
}

/// Encodes every record of a flushed batch against the destination's
/// schema, in order; a record that fails reconciliation or encoding is
/// dropped from the batch, not retried.
pub fn encode_batch(batch: &Vec<StatWithMetadata>, schema: &Schema) -> (r: Vec<Vec<u8>>)
    ensures
        bytes_views(r@) == spec_encoded_batch(batch@, *schema),
{
    let parser = AvroParser;
    let n = batch.len();
    let mut out: Vec<Vec<u8>> = Vec::new();
    let mut i: usize = 0;
    while i < n
        invariant
            i <= n,
            n == batch@.len(),
            bytes_views(out@) == spec_encoded_batch(batch@.take(i as int), *schema),
        decreases n - i,
    {
        let ghost pre = out@;
        match parser.parse_and_encode(&batch[i].stat, schema) {
            Ok(encoded) => {
                out.push(encoded);
            },
            Err(_) => {},
        }
        i += 1;
        proof {
            assert(batch@.take(i as int).drop_last() =~= batch@.take(i as int - 1));
            assert(batch@.take(i as int).last() == batch@[i as int - 1]);
            assert(bytes_views(out@) =~= spec_encoded_batch(batch@.take(i as int), *schema));
        }
    }
    proof {
        assert(batch@.take(n as int) =~= batch@);
    }
    out
}

/// The fixed dead-letter destination for records describing a failed
/// batch send.
pub fn dead_letter_topic() -> (r: &'static str)
    ensures
        r@ == "general_error"@,
{
    "general_error"
}

/// The dataset and table identity under which a dead-letter record
/// enters the publish path: grouped like any other record, it lands on
/// the fixed dead-letter destination.
pub fn dead_letter_identity() -> (r: (&'static str, &'static str))
    ensures
        r.0@ + "_"@ + r.1@ == "general_error"@,
{
    let pair = ("general", "error");
    proof {
        reveal_strlit("general");
        reveal_strlit("_");
        reveal_strlit("error");
        reveal_strlit("general_error");
        assert(pair.0@ + "_"@ + pair.1@ =~= "general_error"@);
    }
    pair
}

/// The named fields of a dead-letter record: the failed batch's
/// dataset and table identity and the failure reason, in the wire
/// text's key order.
pub open spec fn spec_error_record(
    dataset_id: Seq<char>,
    table_id: Seq<char>,
    message: Seq<char>,
) -> Seq<(Seq<char>, FieldValueView)> {
    seq![
        ("bq_table_id"@, FieldValueView::Text(table_id)),
        ("dataset_id"@, FieldValueView::Text(dataset_id)),
        ("error_message"@, FieldValueView::Text(message)),
    ]
}

/// Builds the dead-letter record for a failed batch send, from the
/// batch's first record's identity and the failure reason.
pub fn error_record_fields(dataset_id: &str, table_id: &str, message: &str) -> (r: Vec<
    (String, FieldValue),
>)
    ensures
        fields_view(r@) == spec_error_record(dataset_id@, table_id@, message@),
{
    let mut out: Vec<(String, FieldValue)> = Vec::new();
    out.push((String::from_str("bq_table_id"), FieldValue::Text(table_id.to_owned())));
    out.push((String::from_str("dataset_id"), FieldValue::Text(dataset_id.to_owned())));
    out.push((String::from_str("error_message"), FieldValue::Text(message.to_owned())));
    proof {
        assert(fields_view(out@) =~= spec_error_record(dataset_id@, table_id@, message@));
    }
    out
}

/// The dead-letter record's structured-text rendering: the serialized
/// form whose length the publisher's byte threshold measures.
pub fn error_record_json(dataset_id: &str, table_id: &str, message: &str) -> (r: Vec<u8>)
    ensures
        r@ == record_json_bytes(spec_error_record(dataset_id@, table_id@, message@)),
{
    let fields = error_record_fields(dataset_id, table_id, message);
    record_json(&fields)
}

} // verus!
