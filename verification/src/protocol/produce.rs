//! Produce requests and responses, and the acknowledgement levels.

use vstd::prelude::*;
use vstd::std_specs::convert::{FromSpecImpl, TryFromSpecImpl};
use vstd::utf8::encode_utf8;
use crate::protocol::error_codes::ErrorCode;
use crate::protocol::header::InvalidEnumValue;
use crate::size::{sum_of, lemma_sum_of_take_next, lemma_sum_of_prefix_le, lemma_sum_of_nonneg};
use crate::storage::record_batch::{RecordBatch, RecordBatchView};

verus! {

/// How many acknowledgements a produce request waits for.
#[derive(Debug, Clone, Copy, PartialEq, Eq, Structural)]
pub enum Acks {
    NoAcks,
    Leader,
    All,
}

/// The number that stands for an acknowledgement level on the wire.
pub open spec fn acks_code(a: Acks) -> u32 {
    match a {
        Acks::NoAcks => 0,
        Acks::Leader => 1,
        Acks::All => 2,
    }
}

/// The acknowledgement level that a number stands for, if any.
pub open spec fn acks_from_code(v: u32) -> Result<Acks, InvalidEnumValue> {
    if v == 0 {
        Ok(Acks::NoAcks)
    } else if v == 1 {
        Ok(Acks::Leader)
    } else if v == 2 {
        Ok(Acks::All)
    } else {
        Err(InvalidEnumValue(v))
    }
}

/// Every level survives the trip to its number and back; a number that is
/// read as a level is that level's number.
pub proof fn lemma_acks_code_roundtrip(a: Acks, v: u32)
    ensures
        acks_from_code(acks_code(a)) == Ok::<Acks, InvalidEnumValue>(a),
        acks_from_code(v) matches Ok(a2) ==> acks_code(a2) == v,
{
}

impl TryFrom<u32> for Acks {
    type Error = InvalidEnumValue;

    fn try_from(value: u32) -> (r: Result<Self, Self::Error>) {
        match value {
            0 => Ok(Acks::NoAcks),
            1 => Ok(Acks::Leader),
            2 => Ok(Acks::All),
            _ => Err(InvalidEnumValue(value)),
        }
    }
}

impl TryFromSpecImpl<u32> for Acks {
    open spec fn obeys_try_from_spec() -> bool {
        true
    }

    open spec fn try_from_spec(v: u32) -> Result<Self, InvalidEnumValue> {
        acks_from_code(v)
    }
}

impl From<Acks> for u32 {
    fn from(value: Acks) -> (r: Self) {
        match value {
            Acks::NoAcks => 0,
            Acks::Leader => 1,
            Acks::All => 2,
        }
    }
}

impl FromSpecImpl<Acks> for u32 {
    open spec fn obeys_from_spec() -> bool {
        true
    }

    open spec fn from_spec(v: Acks) -> u32 {
        acks_code(v)
    }
}

#[derive(Debug)]
pub struct ProducePartition {
    pub index: u16,
    pub records: RecordBatch,
}

#[derive(Debug)]
pub struct ProduceTopic {
    pub topic: String,
    pub partitions: Vec<ProducePartition>,
}

#[derive(Debug)]
pub struct ProduceRequest {
    pub transactional_id: u64,
    pub acks: Acks,
    /// How long the request may wait, in milliseconds.
    pub timeout_ms: u64,
    pub topics: Vec<ProduceTopic>,
}

pub struct ProducePartitionView {
    pub index: u16,
    pub records: RecordBatchView,
}

pub struct ProduceTopicView {
    pub topic: Seq<char>,
    pub partitions: Seq<ProducePartitionView>,
}

pub struct ProduceRequestView {
    pub transactional_id: u64,
    pub acks: Acks,
    pub timeout_ms: u64,
    pub topics: Seq<ProduceTopicView>,
}

impl View for ProducePartition {
    type V = ProducePartitionView;

    open spec fn view(&self) -> ProducePartitionView {
        ProducePartitionView { index: self.index, records: self.records@ }
    }
}

impl View for ProduceTopic {
    type V = ProduceTopicView;

    open spec fn view(&self) -> ProduceTopicView {
        ProduceTopicView {
            topic: self.topic@,
            partitions: self.partitions@.map_values(|p: ProducePartition| p@),
        }
    }
}

impl View for ProduceRequest {
    type V = ProduceRequestView;

    open spec fn view(&self) -> ProduceRequestView {
        ProduceRequestView {
            transactional_id: self.transactional_id,
            acks: self.acks,
            timeout_ms: self.timeout_ms,
            topics: self.topics@.map_values(|t: ProduceTopic| t@),
        }
    }
}

#[derive(Debug, Clone)]
pub struct CurrentLeader {
    pub leader_id: i32,
    pub leader_epoch: u32,
}

#[derive(Debug, Clone)]
pub struct ProducePartitionResponse {
    pub index: u32,
    pub error_code: ErrorCode,
    pub base_offset: u64,
    pub log_append_time_ms: u64,
    pub log_start_offset: u64,
    pub error_message: String,
    pub current_leader: Option<CurrentLeader>,
}

#[derive(Debug)]
pub struct ProduceTopicResponse {
    pub topic: String,
    pub partition_responses: Vec<ProducePartitionResponse>,
}

#[derive(Debug)]
pub struct ProduceResponse {
    pub throttle_time_ms: u32,
    pub responses: Vec<ProduceTopicResponse>,
}

/// Length in bytes of a string's UTF-8 encoding, as `str::len` reports it.
pub open spec fn byte_len(s: Seq<char>) -> usize {
    encode_utf8(s).len() as usize
}

/// Size of a partition response: index 4, error code 2, base offset 8,
/// append time 8, start offset 8, message length 2 and message, leader flag
/// 1 and, when a leader is given, 8 more. The message length counts modulo
/// 2^32.
pub open spec fn partition_response_size(r: ProducePartitionResponse) -> int {
    32 + (byte_len(r.error_message@) as u32) + if r.current_leader is Some {
        9int
    } else {
        1int
    }
}

/// Size of a topic response: name length 2 and name, count 4, partitions.
pub open spec fn topic_response_size(t: ProduceTopicResponse) -> int {
    2 + (byte_len(t.topic@) as u32) + 4 + sum_of(t.partition_responses@, partition_response_sizes())
}

/// Sizes of partition responses are never negative.
pub proof fn lemma_partition_response_sizes_nonneg()
    ensures
        forall|r: ProducePartitionResponse| #[trigger] partition_response_sizes()(r) >= 0,
{
}

/// Sizes of topic responses are never negative.
pub proof fn lemma_topic_response_sizes_nonneg()
    ensures
        forall|t: ProduceTopicResponse| #[trigger] topic_response_sizes()(t) >= 0,
{
    assert forall|t: ProduceTopicResponse| #[trigger] topic_response_sizes()(t) >= 0 by {
        lemma_partition_response_sizes_nonneg();
        lemma_sum_of_nonneg(t.partition_responses@, partition_response_sizes());
    }
}

/// `partition_response_size` as a function value.
pub open spec fn partition_response_sizes() -> spec_fn(ProducePartitionResponse) -> int {
    |r: ProducePartitionResponse| partition_response_size(r)
}

/// `topic_response_size` as a function value.
pub open spec fn topic_response_sizes() -> spec_fn(ProduceTopicResponse) -> int {
    |t: ProduceTopicResponse| topic_response_size(t)
}

/// Size of a produce response: throttle time 4, count 4, topics.
pub open spec fn produce_response_size(r: ProduceResponse) -> int {
    8 + sum_of(r.responses@, topic_response_sizes())
}

impl ProducePartitionResponse {
    /// A successful response: the batch went in at `base_offset` and
    /// `broker_id` leads the partition.
    pub fn new(index: u32, base_offset: u64, broker_id: i32) -> (r: Self)
        ensures
            r.index == index,
            r.error_code == ErrorCode::NoError,
            r.base_offset == base_offset,
            r.log_append_time_ms == 0,
            r.log_start_offset == 0,
            r.error_message@ == Seq::<char>::empty(),
            r.current_leader matches Some(l) && l.leader_id == broker_id && l.leader_epoch == 0,
    {
        Self {
            index,
            error_code: ErrorCode::NoError,
            base_offset,
            log_append_time_ms: 0,
            log_start_offset: 0,
            error_message: String::new(),
            current_leader: Some(CurrentLeader { leader_id: broker_id, leader_epoch: 0 }),
        }
    }

    /// A failed response carrying `error_code` and no leader.
    pub fn error(index: u32, error_code: ErrorCode) -> (r: Self)
        ensures
            r.index == index,
            r.error_code == error_code,
            r.base_offset == 0,
            r.log_append_time_ms == 0,
            r.log_start_offset == 0,
            r.error_message@ == Seq::<char>::empty(),
            r.current_leader is None,
    {
        Self {
            index,
            error_code,
            base_offset: 0,
            log_append_time_ms: 0,
            log_start_offset: 0,
            error_message: String::new(),
            current_leader: None,
        }
    }

    /// Bytes the response takes on the wire.
    pub fn get_size(&self) -> (r: u32)
        requires
            partition_response_size(*self) <= u32::MAX,
        ensures
            r == partition_response_size(*self),
    {
        let current_leader_size: u32 = if self.current_leader.is_some() {
            1 + 8
        } else {
            1
        };
        4 + 2 + 8 + 8 + 8 + 2 + self.error_message.as_str().len() as u32 + current_leader_size
    }
}

impl ProduceTopicResponse {
    /// Bytes the response takes on the wire.
    pub fn get_size(&self) -> (r: u32)
        requires
            topic_response_size(*self) <= u32::MAX,
        ensures
            r == topic_response_size(*self),
    {
        let ghost f = partition_response_sizes();
        let ghost s = self.partition_responses@;
        let mut total: u32 = 0;
        let mut i: usize = 0;
        while i < self.partition_responses.len()
            invariant
                s == self.partition_responses@,
                f == partition_response_sizes(),
                topic_response_size(*self) <= u32::MAX,
                i <= s.len(),
                total == sum_of(s.take(i as int), f),
            decreases s.len() - i,
        {
            proof {
                lemma_partition_response_sizes_nonneg();
                lemma_sum_of_take_next(s, f, i as int);
                lemma_sum_of_prefix_le(s, f, i as int + 1);
            }
            total = total + self.partition_responses[i].get_size();
            i = i + 1;
        }
        assert(s.take(s.len() as int) =~= s);
        2 + self.topic.as_str().len() as u32 + 4 + total
    }
}

impl ProduceResponse {
    /// Bytes the response takes on the wire.
    pub fn get_size(&self) -> (r: u32)
        requires
            produce_response_size(*self) <= u32::MAX,
        ensures
            r == produce_response_size(*self),
    {
        let ghost f = topic_response_sizes();
        let ghost s = self.responses@;
        let mut total: u32 = 0;
        let mut i: usize = 0;
        while i < self.responses.len()
            invariant
                s == self.responses@,
                f == topic_response_sizes(),
                produce_response_size(*self) <= u32::MAX,
                i <= s.len(),
                total == sum_of(s.take(i as int), f),
            decreases s.len() - i,
        {
            proof {
                lemma_topic_response_sizes_nonneg();
                lemma_sum_of_take_next(s, f, i as int);
                lemma_sum_of_prefix_le(s, f, i as int + 1);
            }
            total = total + self.responses[i].get_size();
            i = i + 1;
        }
        assert(s.take(s.len() as int) =~= s);
        4 + 4 + total
    }
}

} // verus!
