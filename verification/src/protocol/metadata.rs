//! Metadata and topic-creation requests and responses.

use vstd::prelude::*;
use vstd::std_specs::convert::TryFromSpecImpl;
use crate::protocol::error_codes::ErrorCode;
use crate::protocol::produce::byte_len;
use crate::size::{sum_of, lemma_sum_of_take_next, lemma_sum_of_prefix_le, lemma_sum_of_nonneg};

verus! {

#[derive(Debug)]
pub struct MetadataRequest {
    pub topics: Vec<String>,
    pub allow_auto_topic_creation: bool,
}

#[derive(Debug)]
pub struct MetadataResponse {
    pub throttle_time_ms: u32,
    pub brokers: Vec<BrokerMetadata>,
    pub controller_id: i32,
    pub topics: Vec<TopicMetadata>,
    pub error_code: ErrorCode,
}

#[derive(Debug)]
pub struct BrokerMetadata {
    pub node_id: i32,
    pub host: String,
    pub port: i32,
}

#[derive(Debug)]
pub struct TopicMetadata {
    pub error_code: ErrorCode,
    pub name: String,
    pub partitions: Vec<PartitionMetadata>,
}

#[derive(Debug)]
pub struct PartitionMetadata {
    pub error_code: ErrorCode,
    pub partition_index: i32,
    pub leader_id: i32,
    pub replica_nodes: u32,
    pub isr_nodes: u32,
    pub offline_replicas: u32,
}

#[derive(Debug)]
pub struct CreateTopicRequest {
    pub topics: Vec<TopicRequest>,
    pub timeout_ms: u32,
    pub validate_only: bool,
}

#[derive(Debug)]
pub struct TopicRequest {
    pub name: String,
    pub num_partitions: i32,
    pub replication_factor: u16,
    pub assignments: Vec<TopicPartitonAssignment>,
}

#[derive(Debug)]
pub struct TopicPartitonAssignment {
    pub partition_index: i32,
    pub broker_ids: i32,
}

#[derive(Debug)]
pub struct CreateTopicResponse {
    pub throttle_time_ms: u32,
    pub topics: Vec<TopicResponse>,
}

#[derive(Debug)]
pub struct TopicResponse {
    pub name: String,
    pub error_code: ErrorCode,
    pub error_message: String,
    pub num_partitions: i32,
    pub replication_factor: u16,
}

/// Size of a requested topic name: length 2 and the name.
pub open spec fn requested_topic_size(t: String) -> int {
    2 + (byte_len(t@) as u32)
}

pub open spec fn requested_topic_sizes() -> spec_fn(String) -> int {
    |t: String| requested_topic_size(t)
}

/// Size of a metadata request: 4, the topic names, then 1.
pub open spec fn metadata_request_size(r: MetadataRequest) -> int {
    4 + sum_of(r.topics@, requested_topic_sizes()) + 1
}

/// Size of a broker entry: node id 4, port 4, host length 2 and host.
pub open spec fn broker_metadata_size(b: BrokerMetadata) -> int {
    10 + (byte_len(b.host@) as u32)
}

pub open spec fn broker_metadata_sizes() -> spec_fn(BrokerMetadata) -> int {
    |b: BrokerMetadata| broker_metadata_size(b)
}

/// Size of a partition entry.
pub open spec fn partition_metadata_size() -> int {
    22
}

pub open spec fn partition_metadata_sizes() -> spec_fn(PartitionMetadata) -> int {
    |p: PartitionMetadata| partition_metadata_size()
}

/// Size of a topic entry: error code 2, name length 2 and name, count 4,
/// partitions.
pub open spec fn topic_metadata_size(t: TopicMetadata) -> int {
    4 + (byte_len(t.name@) as u32) + 4 + sum_of(t.partitions@, partition_metadata_sizes())
}

pub open spec fn topic_metadata_sizes() -> spec_fn(TopicMetadata) -> int {
    |t: TopicMetadata| topic_metadata_size(t)
}

/// Size of a metadata response: 18 fixed bytes, brokers, topics.
pub open spec fn metadata_response_size(r: MetadataResponse) -> int {
    18 + sum_of(r.brokers@, broker_metadata_sizes()) + sum_of(r.topics@, topic_metadata_sizes())
}

/// Size of an assignment.
pub open spec fn assignment_sizes() -> spec_fn(TopicPartitonAssignment) -> int {
    |a: TopicPartitonAssignment| 8int
}

/// Size of a topic to create: name length 2 and name, 8 fixed bytes,
/// assignments.
pub open spec fn topic_request_size(t: TopicRequest) -> int {
    2 + (byte_len(t.name@) as u32) + 8 + sum_of(t.assignments@, assignment_sizes())
}

pub open spec fn topic_request_sizes() -> spec_fn(TopicRequest) -> int {
    |t: TopicRequest| topic_request_size(t)
}

/// Size of a topic-creation request: 2, topics, then 5.
pub open spec fn create_topic_request_size(r: CreateTopicRequest) -> int {
    2 + sum_of(r.topics@, topic_request_sizes()) + 5
}

/// Size of a created topic: name length 2 and name, error code 2, message
/// length 2 and message, partitions 4, replication factor 2.
pub open spec fn topic_response_size(t: TopicResponse) -> int {
    2 + (byte_len(t.name@) as u32) + 4 + (byte_len(t.error_message@) as u32) + 6
}

pub open spec fn topic_response_sizes() -> spec_fn(TopicResponse) -> int {
    |t: TopicResponse| topic_response_size(t)
}

/// Size of a topic-creation response: throttle time 4, count 2, topics.
pub open spec fn create_topic_response_size(r: CreateTopicResponse) -> int {
    6 + sum_of(r.topics@, topic_response_sizes())
}

/// None of these sizes is negative.
pub proof fn lemma_metadata_sizes_nonneg()
    ensures
        forall|t: String| #[trigger] requested_topic_sizes()(t) >= 0,
        forall|b: BrokerMetadata| #[trigger] broker_metadata_sizes()(b) >= 0,
        forall|p: PartitionMetadata| #[trigger] partition_metadata_sizes()(p) >= 0,
        forall|t: TopicMetadata| #[trigger] topic_metadata_sizes()(t) >= 0,
        forall|a: TopicPartitonAssignment| #[trigger] assignment_sizes()(a) >= 0,
        forall|t: TopicRequest| #[trigger] topic_request_sizes()(t) >= 0,
        forall|t: TopicResponse| #[trigger] topic_response_sizes()(t) >= 0,
{
    assert forall|t: TopicMetadata| #[trigger] topic_metadata_sizes()(t) >= 0 by {
        lemma_sum_of_nonneg(t.partitions@, partition_metadata_sizes());
    }
    assert forall|t: TopicRequest| #[trigger] topic_request_sizes()(t) >= 0 by {
        lemma_sum_of_nonneg(t.assignments@, assignment_sizes());
    }
}

/// Parts of the metadata response's size are no larger than the whole.
proof fn lemma_metadata_response_parts(r: MetadataResponse)
    ensures
        sum_of(r.brokers@, broker_metadata_sizes()) >= 0,
        sum_of(r.topics@, topic_metadata_sizes()) >= 0,
{
    lemma_metadata_sizes_nonneg();
    lemma_sum_of_nonneg(r.brokers@, broker_metadata_sizes());
    lemma_sum_of_nonneg(r.topics@, topic_metadata_sizes());
}

impl MetadataRequest {
    /// Bytes the request takes on the wire.
    pub fn get_size(&self) -> (r: u32)
        requires
            metadata_request_size(*self) <= u32::MAX,
        ensures
            r == metadata_request_size(*self),
    {
        let ghost f = requested_topic_sizes();
        let ghost s = self.topics@;
        let mut total: u32 = 0;
        let mut i: usize = 0;
        while i < self.topics.len()
            invariant
                s == self.topics@,
                f == requested_topic_sizes(),
                metadata_request_size(*self) <= u32::MAX,
                i <= s.len(),
                total == sum_of(s.take(i as int), f),
            decreases s.len() - i,
        {
            proof {
                lemma_metadata_sizes_nonneg();
                lemma_sum_of_take_next(s, f, i as int);
                lemma_sum_of_prefix_le(s, f, i as int + 1);
            }
            total = total + (2 + self.topics[i].as_str().len() as u32);
            i = i + 1;
        }
        assert(s.take(s.len() as int) =~= s);
        4 + total + 1
    }
}

impl BrokerMetadata {
    /// Bytes the entry takes on the wire.
    pub fn get_size(&self) -> (r: u32)
        requires
            broker_metadata_size(*self) <= u32::MAX,
        ensures
            r == broker_metadata_size(*self),
    {
        4 + 4 + 2 + self.host.as_str().len() as u32
    }
}

impl PartitionMetadata {
    /// Bytes the entry takes on the wire.
    pub fn get_size(&self) -> (r: u32)
        ensures
            r == partition_metadata_size(),
    {
        2 + 4 + 4 + 4 + 4 + 4
    }
}

impl TopicMetadata {
    /// Bytes the entry takes on the wire.
    pub fn get_size(&self) -> (r: u32)
        requires
            topic_metadata_size(*self) <= u32::MAX,
        ensures
            r == topic_metadata_size(*self),
    {
        let ghost f = partition_metadata_sizes();
        let ghost s = self.partitions@;
        let mut total: u32 = 0;
        let mut i: usize = 0;
        while i < self.partitions.len()
            invariant
                s == self.partitions@,
                f == partition_metadata_sizes(),
                topic_metadata_size(*self) <= u32::MAX,
                i <= s.len(),
                total == sum_of(s.take(i as int), f),
            decreases s.len() - i,
        {
            proof {
                lemma_metadata_sizes_nonneg();
                lemma_sum_of_take_next(s, f, i as int);
                lemma_sum_of_prefix_le(s, f, i as int + 1);
            }
            total = total + self.partitions[i].get_size();
            i = i + 1;
        }
        assert(s.take(s.len() as int) =~= s);
        2 + 2 + self.name.as_str().len() as u32 + 4 + total
    }
}

impl MetadataResponse {
    /// Bytes the response takes on the wire.
    pub fn get_size(&self) -> (r: u32)
        requires
            metadata_response_size(*self) <= u32::MAX,
        ensures
            r == metadata_response_size(*self),
    {
        proof {
            lemma_metadata_response_parts(*self);
        }
        let ghost fb = broker_metadata_sizes();
        let ghost sb = self.brokers@;
        let mut brokers: u32 = 0;
        let mut i: usize = 0;
        while i < self.brokers.len()
            invariant
                sb == self.brokers@,
                fb == broker_metadata_sizes(),
                metadata_response_size(*self) <= u32::MAX,
                sum_of(self.topics@, topic_metadata_sizes()) >= 0,
                i <= sb.len(),
                brokers == sum_of(sb.take(i as int), fb),
            decreases sb.len() - i,
        {
            proof {
                lemma_metadata_sizes_nonneg();
                lemma_sum_of_take_next(sb, fb, i as int);
                lemma_sum_of_prefix_le(sb, fb, i as int + 1);
            }
            brokers = brokers + self.brokers[i].get_size();
            i = i + 1;
        }
        assert(sb.take(sb.len() as int) =~= sb);
        let ghost ft = topic_metadata_sizes();
        let ghost st = self.topics@;
        let mut topics: u32 = 0;
        let mut j: usize = 0;
        while j < self.topics.len()
            invariant
                st == self.topics@,
                ft == topic_metadata_sizes(),
                metadata_response_size(*self) <= u32::MAX,
                brokers == sum_of(self.brokers@, broker_metadata_sizes()),
                brokers >= 0,
                j <= st.len(),
                topics == sum_of(st.take(j as int), ft),
            decreases st.len() - j,
        {
            proof {
                lemma_metadata_sizes_nonneg();
                lemma_sum_of_take_next(st, ft, j as int);
                lemma_sum_of_prefix_le(st, ft, j as int + 1);
            }
            topics = topics + self.topics[j].get_size();
            j = j + 1;
        }
        assert(st.take(st.len() as int) =~= st);
        4 + 4 + 2 + 4 + 4 + brokers + topics
    }
}

impl TryFrom<crate::protocol::body::FrameBody> for MetadataResponse {
    type Error = crate::protocol::body::FrameBody;

    fn try_from(value: crate::protocol::body::FrameBody) -> (r: Result<Self, Self::Error>) {
        match value {
            crate::protocol::body::FrameBody::MetadataResponse(metadata) => Ok(metadata),
            other => Err(other),
        }
    }
}

impl TryFromSpecImpl<crate::protocol::body::FrameBody> for MetadataResponse {
    open spec fn obeys_try_from_spec() -> bool {
        true
    }

    open spec fn try_from_spec(v: crate::protocol::body::FrameBody) -> Result<
        Self,
        crate::protocol::body::FrameBody,
    > {
        match v {
            crate::protocol::body::FrameBody::MetadataResponse(m) => Ok(m),
            other => Err(other),
        }
    }
}

impl CreateTopicRequest {
    /// Bytes the request takes on the wire.
    pub fn get_size(&self) -> (r: u32)
        requires
            create_topic_request_size(*self) <= u32::MAX,
        ensures
            r == create_topic_request_size(*self),
    {
        let ghost f = topic_request_sizes();
        let ghost s = self.topics@;
        let mut total: u32 = 0;
        let mut i: usize = 0;
        while i < self.topics.len()
            invariant
                s == self.topics@,
                f == topic_request_sizes(),
                create_topic_request_size(*self) <= u32::MAX,
                i <= s.len(),
                total == sum_of(s.take(i as int), f),
            decreases s.len() - i,
        {
            proof {
                lemma_metadata_sizes_nonneg();
                lemma_sum_of_take_next(s, f, i as int);
                lemma_sum_of_prefix_le(s, f, i as int + 1);
            }
            total = total + self.topics[i].get_size();
            i = i + 1;
        }
        assert(s.take(s.len() as int) =~= s);
        2 + total + 4 + 1
    }
}

impl TopicRequest {
    /// Bytes the topic takes on the wire.
    pub fn get_size(&self) -> (r: u32)
        requires
            topic_request_size(*self) <= u32::MAX,
        ensures
            r == topic_request_size(*self),
    {
        let ghost f = assignment_sizes();
        let ghost s = self.assignments@;
        let mut total: u32 = 0;
        let mut i: usize = 0;
        while i < self.assignments.len()
            invariant
                s == self.assignments@,
                f == assignment_sizes(),
                topic_request_size(*self) <= u32::MAX,
                i <= s.len(),
                total == sum_of(s.take(i as int), f),
            decreases s.len() - i,
        {
            proof {
                lemma_metadata_sizes_nonneg();
                lemma_sum_of_take_next(s, f, i as int);
                lemma_sum_of_prefix_le(s, f, i as int + 1);
            }
            total = total + self.assignments[i].get_size();
            i = i + 1;
        }
        assert(s.take(s.len() as int) =~= s);
        2 + self.name.as_str().len() as u32 + 4 + 2 + 2 + total
    }
}

impl TopicPartitonAssignment {
    /// Bytes the assignment takes on the wire.
    pub fn get_size(&self) -> (r: u32)
        ensures
            r == 8,
    {
        4 + 4
    }
}

impl CreateTopicResponse {
    /// Bytes the response takes on the wire.
    pub fn get_size(&self) -> (r: u32)
        requires
            create_topic_response_size(*self) <= u32::MAX,
        ensures
            r == create_topic_response_size(*self),
    {
        let ghost f = topic_response_sizes();
        let ghost s = self.topics@;
        let mut total: u32 = 0;
        let mut i: usize = 0;
        while i < self.topics.len()
            invariant
                s == self.topics@,
                f == topic_response_sizes(),
                create_topic_response_size(*self) <= u32::MAX,
                i <= s.len(),
                total == sum_of(s.take(i as int), f),
            decreases s.len() - i,
        {
            proof {
                lemma_metadata_sizes_nonneg();
                lemma_sum_of_take_next(s, f, i as int);
                lemma_sum_of_prefix_le(s, f, i as int + 1);
            }
            total = total + self.topics[i].get_size();
            i = i + 1;
        }
        assert(s.take(s.len() as int) =~= s);
        4 + 2 + total
    }
}

impl TopicResponse {
    /// Bytes the entry takes on the wire.
    pub fn get_size(&self) -> (r: u32)
        requires
            topic_response_size(*self) <= u32::MAX,
        ensures
            r == topic_response_size(*self),
    {
        2 + self.name.as_str().len() as u32 + 2 + 2 + self.error_message.as_str().len() as u32 + 4
            + 2
    }
}

} // verus!
