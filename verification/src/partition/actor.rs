//! The decisions of the actor that owns a partition. The actor appends
//! batches to the active segment, rolls the segment when it is full,
//! advances the log end offset and the high watermark, and answers
//! producers: at once, or, for those that wait for every replica, once the
//! replicas' acknowledgements have lifted the high watermark past their
//! batch. Receiving commands, writing the log file, opening segments and
//! sending the answers are left to the caller, step by step.

use vstd::prelude::*;
use vstd::string::*;
use std::collections::VecDeque;
use crate::buffer::{decimal, u32_to_string};
use crate::partition::config::PartitionConfig;
use crate::partition::state::{PartitionState, acked, segments_ordered};
use crate::protocol::produce::{Acks, ProducePartitionResponse};
use crate::protocol::error_codes::ErrorCode;
use crate::segment::log_segment::{LogSegment, accounted};
use crate::segment::metadata::SegmentView;
use crate::segment::laws::{walk_ends_at_end, batch_log_bytes, lemma_fetch_all_after_append, lemma_bytes_or_zero_within};
use crate::segment::metadata::batches_in;
use crate::storage::record_batch::{RecordBatch, RecordBatchView, batch_consistent};
use crate::wire::{bytes_or_zero, lemma_u32_be_roundtrip, lemma_u64_be_roundtrip};

verus! {

/// A producer waiting for the replicas: answered once the high watermark
/// reaches `hw`, with the base offset its batch got.
#[derive(Debug, Clone, Copy, PartialEq, Eq, Structural)]
pub struct PendingResponse {
    pub hw: u64,
    pub base_offset: u64,
}

pub struct PartitionActorConfig {
    pub base_dir: String,
    pub segment_bytes: usize,
    pub broker_id: u16,
    pub partition_id: u16,
}

/// `name` put under the directory `base` as a path joins them: a name that
/// starts at the root stands alone; otherwise a separator goes between
/// them unless `base` is empty or already ends with one.
pub open spec fn join_path(base: Seq<char>, name: Seq<char>) -> Seq<char> {
    if name.len() > 0 && name[0] == '/' {
        name
    } else if base.len() == 0 || base.last() == '/' {
        base + name
    } else {
        base + seq!['/'] + name
    }
}

/// The directory of a topic's partition: `{topic}-{partition}` under the
/// base directory.
pub open spec fn partition_dir(base_dir: Seq<char>, topic_id: Seq<char>, partition_id: u32) -> Seq<
    char,
> {
    join_path(base_dir, topic_id + seq!['-'] + decimal(partition_id as nat))
}

/// The directory that partition `partition_id` of topic `topic_id` keeps
/// its segments in, under `base_dir`.
pub fn partition_path(base_dir: &String, topic_id: &String, partition_id: u32) -> (r: String)
    ensures
        r@ == partition_dir(base_dir@, topic_id@, partition_id),
{
    let mut name = topic_id.clone();
    name.append("-");
    let id = u32_to_string(partition_id);
    name.append(id.as_str());
    proof {
        reveal_strlit("-");
        reveal_strlit("/");
    }
    assert(name@ == topic_id@ + seq!['-'] + decimal(partition_id as nat));
    let name_len = name.as_str().unicode_len();
    let base_len = base_dir.as_str().unicode_len();
    if name_len > 0 && name.as_str().get_char(0) == '/' {
        name
    } else if base_len == 0 || base_dir.as_str().get_char(base_len - 1) == '/' {
        let mut joined = base_dir.clone();
        joined.append(name.as_str());
        joined
    } else {
        let mut joined = base_dir.clone();
        joined.append("/");
        joined.append(name.as_str());
        joined
    }
}

impl PartitionActorConfig {
    /// The actor's settings for a partition: its own directory under the
    /// configured one, its segment size, broker and partition ids.
    pub fn from(cfg: PartitionConfig) -> (r: Self)
        ensures
            r.base_dir@ == partition_dir(cfg.base_dir@, cfg.topic_id@, cfg.partition_id as u32),
            r.segment_bytes == cfg.segment_bytes,
            r.broker_id == cfg.broker_id,
            r.partition_id == cfg.partition_id,
    {
        let base_dir = partition_path(&cfg.base_dir, &cfg.topic_id, cfg.partition_id as u32);
        PartitionActorConfig {
            base_dir,
            segment_bytes: cfg.segment_bytes,
            broker_id: cfg.broker_id,
            partition_id: cfg.partition_id,
        }
    }
}

pub struct PartitionActor {
    pub base_dir: String,
    pub partition_id: u16,
    pub broker_id: u16,
    pub segment_bytes: usize,
    /// The segment appends go to.
    pub active: LogSegment,
    /// The partition as last published.
    pub state: PartitionState,
    /// Producers waiting for the replicas, oldest first.
    pub acks_pending_replication: VecDeque<PendingResponse>,
}

/// What an append leaves to the caller: the answer to send now, if the
/// producer does not wait for the replicas, and the base offset of the
/// segment to open next, if the active one is full.
pub struct AppendOutcome {
    pub response: Option<ProducePartitionResponse>,
    pub roll_at: Option<u64>,
}

/// How many of the waiting producers, from the oldest, the high watermark
/// `hw` answers: up to the first whose batch lies beyond it.
pub open spec fn answered(pending: Seq<PendingResponse>, hw: u64, i: int) -> int
    decreases pending.len() - i,
{
    if i >= pending.len() {
        pending.len() as int
    } else if pending[i].hw > hw {
        i
    } else {
        answered(pending, hw, i + 1)
    }
}

proof fn lemma_answered_bounds(pending: Seq<PendingResponse>, hw: u64, i: int)
    requires
        0 <= i <= pending.len(),
    ensures
        i <= answered(pending, hw, i) <= pending.len(),
        forall|k: int| i <= k < answered(pending, hw, i) ==> pending[k].hw <= hw,
        answered(pending, hw, i) < pending.len() ==> pending[answered(pending, hw, i)].hw > hw,
    decreases pending.len() - i,
{
    if i < pending.len() && pending[i].hw <= hw {
        lemma_answered_bounds(pending, hw, i + 1);
    }
}

/// The answer a producer gets: the partition, the base offset of its batch
/// and this broker as leader.
pub open spec fn produce_answer(r: ProducePartitionResponse, partition_id: u16, base_offset: u64, broker_id: u16) -> bool {
    &&& r.index == partition_id as u32
    &&& r.error_code == ErrorCode::NoError
    &&& r.base_offset == base_offset
    &&& r.log_append_time_ms == 0
    &&& r.log_start_offset == 0
    &&& r.error_message@ == Seq::<char>::empty()
    &&& r.current_leader matches Some(l) && l.leader_id == broker_id as i32 && l.leader_epoch == 0
}

/// `new` is `old` after accounting for a batch of `records_count` records
/// and `batch_length` bytes past its header prefix: the log end offset
/// grows by the count, and so does the high watermark when there are no
/// replicas; the active segment grows by the batch, and its new view
/// replaces the last published one.
pub open spec fn appended(old: PartitionActor, new: PartitionActor, records_count: u32, batch_length: u32) -> bool {
    &&& new.state.log_end_offset == old.state.log_end_offset + records_count
    &&& new.state.high_watermark == if old.state.replicas@.len() == 0 {
        old.state.high_watermark + records_count
    } else {
        old.state.high_watermark as int
    }
    &&& new.state.replicas@ == old.state.replicas@
    &&& new.active.size == old.active.size + 12 + batch_length
    &&& new.state.segments@ == old.state.segments@.update(
        old.state.segments@.len() - 1,
        new.active.segment,
    )
    &&& new.active.segment == (SegmentView {
        base_offset: old.active.segment.base_offset,
        index_count: new.active.index_count,
        size: new.active.size,
    })
    &&& new.partition_id == old.partition_id
    &&& new.broker_id == old.broker_id
    &&& new.segment_bytes == old.segment_bytes
    &&& new.base_dir@ == old.base_dir@
}

/// After the actor accounts for a consistent batch written at the end of
/// its active segment's log, which held whole batches up to the segment's
/// size, the segment it publishes last reads back the batches the log held
/// and then the new one.
pub proof fn lemma_append_then_read_back(
    old: PartitionActor,
    new: PartitionActor,
    log: Seq<u8>,
    b: RecordBatchView,
)
    requires
        old.wf(),
        appended(old, new, b.records_count, b.batch_length),
        log.len() == old.active.size,
        walk_ends_at_end(log, 0),
        batches_in(log, 0) is Some,
        batch_consistent(b),
    ensures
        new.state.segments@.last() == new.active.segment,
        new.active.segment.size == (log + batch_log_bytes(b)).len(),
        batches_in(
            bytes_or_zero(log + batch_log_bytes(b), 0, new.state.segments@.last().size as nat),
            0,
        ) == Some(batches_in(log, 0).unwrap().push(b)),
{
    let before = SegmentView {
        base_offset: old.active.segment.base_offset,
        index_count: old.active.index_count,
        size: old.active.size,
    };
    lemma_u32_be_roundtrip(b.batch_length);
    lemma_u64_be_roundtrip(b.base_offset);
    lemma_u32_be_roundtrip(b.records_count);
    lemma_fetch_all_after_append(before, log, b, new.active.segment);
    lemma_bytes_or_zero_within(log, 0, old.active.size as nat);
    assert(log.subrange(0, log.len() as int) =~= log);
}

impl PartitionActor {
    /// The actor's account is consistent: the last published segment is
    /// the active one's view, segments are ordered and start at or below
    /// the log end offset, and the waiting producers are ordered by the
    /// offset they wait for, none beyond the log end offset.
    pub open spec fn wf(self) -> bool {
        &&& self.active.wf()
        &&& self.state.segments@.len() > 0
        &&& self.state.segments@.last() == self.active.segment
        &&& segments_ordered(self.state.segments@)
        &&& forall|i: int|
            0 <= i < self.state.segments@.len() ==> #[trigger] self.state.segments@[i].base_offset
                <= self.state.log_end_offset
        &&& forall|i: int, j: int|
            0 <= i <= j < self.acks_pending_replication@.len()
                ==> self.acks_pending_replication@[i].hw <= self.acks_pending_replication@[j].hw
        &&& forall|i: int|
            0 <= i < self.acks_pending_replication@.len()
                ==> #[trigger] self.acks_pending_replication@[i].hw <= self.state.log_end_offset
    }

    /// Starts the actor over the partition `state` with `active`, a segment
    /// opened at offset 0: its view is published as the last segment, and
    /// the log end offset and high watermark start at 0.
    pub fn new(state: PartitionState, config: PartitionActorConfig, active: LogSegment) -> (r: Self)
        requires
            active.wf(),
        ensures
            r.base_dir@ == config.base_dir@,
            r.partition_id == config.partition_id,
            r.broker_id == config.broker_id,
            r.segment_bytes == config.segment_bytes,
            r.state.segments@ == state.segments@.push(r.active.segment),
            r.active.segment == (SegmentView {
                base_offset: active.segment.base_offset,
                index_count: active.index_count,
                size: active.size,
            }),
            r.state.log_end_offset == 0,
            r.state.high_watermark == 0,
            r.state.replicas@ == state.replicas@,
            r.acks_pending_replication@.len() == 0,
            (forall|i: int| 0 <= i < state.segments@.len() ==> #[trigger] state.segments@[i].base_offset == 0)
                && active.segment.base_offset == 0 ==> r.wf(),
    {
        let mut active = active;
        let mut segments = state.segments.clone();
        assert(segments@ == state.segments@) by {
            assert(segments@ =~= state.segments@);
        }
        let published = active.publish();
        segments.push(published);
        let state = state.consume(segments, 0, 0);
        PartitionActor {
            base_dir: config.base_dir,
            partition_id: config.partition_id,
            broker_id: config.broker_id,
            segment_bytes: config.segment_bytes,
            active,
            state,
            acks_pending_replication: VecDeque::new(),
        }
    }

    /// Gives a batch about to be appended its base offset: the offset the
    /// log ends at.
    pub fn assign_base_offset(&self, record: &mut RecordBatch)
        ensures
            final(record)@ == (crate::storage::record_batch::RecordBatchView {
                base_offset: self.state.log_end_offset,
                ..old(record)@
            }),
    {
        record.update_base_offset(self.state.log_end_offset);
    }

    /// Accounts for `record`, which the caller has given its base offset
    /// and written to the active segment's log at `log_pos`. The log end
    /// offset grows by the batch's record count, and so does the high
    /// watermark when there are no replicas to wait for; the active
    /// segment's new view replaces the last published one. A producer that
    /// does not wait for the replicas is answered now; one that does is
    /// queued until the high watermark reaches the new log end offset. When
    /// the active segment has reached its size, the caller is to open the
    /// next one at the new log end offset and hand it to `roll`.
    pub fn record_append(&mut self, record: &RecordBatch, acks: Acks, log_pos: u64) -> (r: AppendOutcome)
        requires
            old(self).wf(),
            old(self).state.log_end_offset + record.records_count <= u64::MAX,
            old(self).state.high_watermark + record.records_count <= u64::MAX,
            old(self).active.bytes_since_last_index + 12 + record.batch_length <= usize::MAX,
            old(self).active.size + 12 + record.batch_length <= usize::MAX,
        ensures
            final(self).wf(),
            appended(*old(self), *final(self), record.records_count, record.batch_length),
            accounted(
                old(self).active,
                final(self).active,
                record.base_offset,
                record.batch_length,
                log_pos,
            ),
            match acks {
                Acks::All => {
                    &&& r.response is None
                    &&& final(self).acks_pending_replication@ == old(
                        self,
                    ).acks_pending_replication@.push(
                        PendingResponse {
                            hw: final(self).state.log_end_offset,
                            base_offset: old(self).state.log_end_offset,
                        },
                    )
                },
                _ => {
                    &&& r.response matches Some(resp) && produce_answer(
                        resp,
                        old(self).partition_id,
                        old(self).state.log_end_offset,
                        old(self).broker_id,
                    )
                    &&& final(self).acks_pending_replication@ == old(
                        self,
                    ).acks_pending_replication@
                },
            },
            r.roll_at == if final(self).active.size >= old(self).segment_bytes {
                Some(final(self).state.log_end_offset)
            } else {
                None::<u64>
            },
    {
        let base_offset = self.state.log_end_offset;
        let partition_response = ProducePartitionResponse::new(
            self.partition_id as u32,
            base_offset,
            self.broker_id as i32,
        );

        self.active.append_batch(record, log_pos);
        let leo = base_offset + record.records_count as u64;

        let current_active = self.active.publish();
        let last = self.state.segments.len() - 1;
        self.state.segments.set(last, current_active);
        self.state.log_end_offset = leo;
        if self.state.replicas.len() == 0 {
            self.state.high_watermark = self.state.high_watermark + record.records_count as u64;
        }
        let roll_at = if self.active.size >= self.segment_bytes {
            Some(leo)
        } else {
            None
        };

        let response = match acks {
            Acks::NoAcks | Acks::Leader => Some(partition_response),
            Acks::All => {
                self.acks_pending_replication.push_back(PendingResponse { hw: leo, base_offset });
                None
            },
        };
        assert(self.state.segments@.last() == self.active.segment);
        AppendOutcome { response, roll_at }
    }

    /// Makes `next`, a segment just opened at the log end offset, the
    /// active one, publishing its view after the others.
    pub fn roll(&mut self, next: LogSegment)
        requires
            old(self).wf(),
            next.wf(),
            next.segment.base_offset == old(self).state.log_end_offset,
        ensures
            final(self).wf(),
            final(self).state.segments@ == old(self).state.segments@.push(final(self).active.segment),
            final(self).active.segment == (SegmentView {
                base_offset: next.segment.base_offset,
                index_count: next.index_count,
                size: next.size,
            }),
            final(self).active.size == next.size,
            final(self).state.log_end_offset == old(self).state.log_end_offset,
            final(self).state.high_watermark == old(self).state.high_watermark,
            final(self).state.replicas@ == old(self).state.replicas@,
            final(self).acks_pending_replication@ == old(self).acks_pending_replication@,
            final(self).partition_id == old(self).partition_id,
            final(self).broker_id == old(self).broker_id,
            final(self).segment_bytes == old(self).segment_bytes,
            final(self).base_dir@ == old(self).base_dir@,
    {
        let mut next = next;
        let published = next.publish();
        self.state.segments.push(published);
        self.active = next;
    }

    /// Takes replica `replica_id`'s acknowledgement of the log up to `leo`
    /// into the partition, then answers, oldest first, every waiting
    /// producer whose batch the new high watermark covers, up to the first
    /// that it does not.
    pub fn update_replica_leo(&mut self, replica_id: u32, leo: u64) -> (r: Vec<ProducePartitionResponse>)
        requires
            old(self).wf(),
        ensures
            final(self).wf(),
            acked(old(self).state, final(self).state, replica_id, leo),
            r@.len() == answered(
                old(self).acks_pending_replication@,
                final(self).state.high_watermark,
                0,
            ),
            forall|i: int|
                0 <= i < r@.len() ==> produce_answer(
                    #[trigger] r@[i],
                    old(self).partition_id,
                    old(self).acks_pending_replication@[i].base_offset,
                    old(self).broker_id,
                ),
            final(self).acks_pending_replication@ == old(self).acks_pending_replication@.skip(
                r@.len() as int,
            ),
            forall|i: int|
                0 <= i < final(self).acks_pending_replication@.len()
                    ==> #[trigger] final(self).acks_pending_replication@[i].hw
                    > final(self).state.high_watermark,
            final(self).active.segment == old(self).active.segment,
            final(self).active.size == old(self).active.size,
            final(self).partition_id == old(self).partition_id,
            final(self).broker_id == old(self).broker_id,
            final(self).segment_bytes == old(self).segment_bytes,
            final(self).base_dir@ == old(self).base_dir@,
    {
        let mut current = PartitionState::new(Vec::new());
        std::mem::swap(&mut current, &mut self.state);
        let next = current.ack_replica(replica_id, leo);
        let ghost pending0 = self.acks_pending_replication@;
        proof {
            lemma_answered_bounds(pending0, next.high_watermark, 0);
        }
        let mut responses: Vec<ProducePartitionResponse> = Vec::new();
        loop
            invariant_except_break
                answered(pending0, next.high_watermark, responses@.len() as int) == answered(
                    pending0,
                    next.high_watermark,
                    0,
                ),
            invariant
                pending0 == old(self).acks_pending_replication@,
                acked(old(self).state, next, replica_id, leo),
                self.partition_id == old(self).partition_id,
                self.broker_id == old(self).broker_id,
                self.segment_bytes == old(self).segment_bytes,
                self.base_dir == old(self).base_dir,
                self.active == old(self).active,
                0 <= responses@.len() <= answered(pending0, next.high_watermark, 0),
                answered(pending0, next.high_watermark, 0) <= pending0.len(),
                self.acks_pending_replication@ == pending0.skip(responses@.len() as int),
                forall|i: int|
                    0 <= i < responses@.len() ==> produce_answer(
                        #[trigger] responses@[i],
                        self.partition_id,
                        pending0[i].base_offset,
                        self.broker_id,
                    ),
            ensures
                responses@.len() == answered(pending0, next.high_watermark, 0),
            decreases pending0.len() - responses@.len(),
        {
            let ghost before = self.acks_pending_replication@;
            match self.acks_pending_replication.pop_front() {
                None => {
                    break;
                },
                Some(ack) => {
                    if ack.hw > next.high_watermark {
                        self.acks_pending_replication.push_front(ack);
                        assert(self.acks_pending_replication@ =~= before);
                        break;
                    }
                    assert(self.acks_pending_replication@ =~= pending0.skip(
                        responses@.len() + 1int,
                    ));
                    proof {
                        lemma_answered_bounds(pending0, next.high_watermark, responses@.len() + 1int);
                    }
                    let answer = ProducePartitionResponse::new(
                        self.partition_id as u32,
                        ack.base_offset,
                        self.broker_id as i32,
                    );
                    responses.push(answer);
                },
            }
        }
        self.state = next;
        proof {
            let k = responses@.len() as int;
            let rest = self.acks_pending_replication@;
            assert forall|i: int, j: int| 0 <= i <= j < rest.len() implies rest[i].hw <= rest[j].hw by {
                assert(rest[i] == pending0[i + k]);
                assert(rest[j] == pending0[j + k]);
            }
            assert forall|i: int| 0 <= i < rest.len() implies #[trigger] rest[i].hw
                <= self.state.log_end_offset by {
                assert(rest[i] == pending0[i + k]);
            }
            assert forall|i: int| 0 <= i < rest.len() implies #[trigger] rest[i].hw
                > self.state.high_watermark by {
                assert(rest[i] == pending0[i + k]);
                assert(pending0[k].hw <= pending0[i + k].hw);
            }
        }
        responses
    }
}

} // verus!
