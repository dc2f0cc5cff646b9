//! How the sizes of responses follow from what they carry.

use vstd::prelude::*;
use crate::protocol::fetch::{
    PartitionResponse, TopicResponse, FetchResponse, batch_sizes, fetch_partition_response_size,
    fetch_partition_response_sizes, fetch_topic_response_size, fetch_topic_response_sizes,
    fetch_response_size,
};
use crate::protocol::produce::{
    ProducePartitionResponse, ProduceTopicResponse, ProduceResponse, byte_len,
    partition_response_size, partition_response_sizes, topic_response_size, topic_response_sizes,
    produce_response_size,
};
use crate::protocol::metadata::{
    MetadataRequest, MetadataResponse, BrokerMetadata, TopicMetadata, TopicRequest,
    CreateTopicRequest, CreateTopicResponse, TopicResponse as CreatedTopic, requested_topic_sizes,
    metadata_request_size, broker_metadata_size, broker_metadata_sizes, partition_metadata_sizes,
    topic_metadata_size, topic_metadata_sizes, metadata_response_size, assignment_sizes,
    topic_request_size, topic_request_sizes, create_topic_request_size,
    topic_response_size as created_topic_size, topic_response_sizes as created_topic_sizes,
    create_topic_response_size,
};
use crate::size::{sum_of, lemma_sum_of_push};
use crate::storage::record_batch::{RecordBatch, batch_header_bytes};
use crate::wire::{lemma_u32_be_roundtrip, lemma_u64_be_roundtrip};

verus! {

/// The bytes of batches laid one after another, each as its 16 header
/// bytes and then its records.
pub open spec fn batches_wire_bytes(s: Seq<RecordBatch>) -> Seq<u8>
    decreases s.len(),
{
    if s.len() == 0 {
        Seq::empty()
    } else {
        batches_wire_bytes(s.drop_last()) + (batch_header_bytes(s.last()@) + s.last()@.records)
    }
}

/// A fetch partition response that carries no batch takes 22 bytes: index
/// 4, error code 2, high watermark 8 and log start offset 8.
pub proof fn lemma_fetch_partition_response_size_no_batches(p: PartitionResponse)
    requires
        p.records@.len() == 0,
    ensures
        fetch_partition_response_size(p) == 22,
{
}

/// Adding a batch to a fetch partition response grows its size by exactly
/// the bytes that the batch's encoding takes, header and records, whatever
/// the other fields hold.
pub proof fn lemma_fetch_partition_response_size_push(
    p: PartitionResponse,
    q: PartitionResponse,
    b: RecordBatch,
)
    requires
        q.records@ == p.records@.push(b),
    ensures
        fetch_partition_response_size(q) == fetch_partition_response_size(p) + (batch_header_bytes(
            b@,
        ) + b@.records).len(),
{
    lemma_u64_be_roundtrip(b.base_offset);
    lemma_u32_be_roundtrip(b.batch_length);
    lemma_u32_be_roundtrip(b.records_count);
    lemma_sum_of_push(p.records@, b, batch_sizes());
}

proof fn lemma_batches_wire_len(s: Seq<RecordBatch>)
    ensures
        sum_of(s, batch_sizes()) == batches_wire_bytes(s).len(),
    decreases s.len(),
{
    if s.len() > 0 {
        let b = s.last();
        lemma_u64_be_roundtrip(b.base_offset);
        lemma_u32_be_roundtrip(b.batch_length);
        lemma_u32_be_roundtrip(b.records_count);
        lemma_batches_wire_len(s.drop_last());
    }
}

/// A fetch partition response takes its 22 bytes of fields and then as many
/// bytes as its batches, header and records each, take one after another.
pub proof fn lemma_fetch_partition_response_size_counts_batches(p: PartitionResponse)
    ensures
        fetch_partition_response_size(p) == 22 + batches_wire_bytes(p.records@).len(),
{
    lemma_batches_wire_len(p.records@);
}

/// A fetch topic response with no partition takes 2 length bytes, its name
/// (its byte length counted modulo 2^32) and 4 count bytes.
pub proof fn lemma_fetch_topic_response_size_no_partitions(t: TopicResponse)
    requires
        t.partitions@.len() == 0,
    ensures
        fetch_topic_response_size(t) == 6 + (byte_len(t.topic@) as u32),
{
}

/// Adding a partition response to a fetch topic response grows its size by
/// that partition response's size, which is at least 22.
pub proof fn lemma_fetch_topic_response_size_push(t: TopicResponse, u: TopicResponse, p: PartitionResponse)
    requires
        u.topic@ == t.topic@,
        u.partitions@ == t.partitions@.push(p),
    ensures
        fetch_topic_response_size(u) == fetch_topic_response_size(t) + fetch_partition_response_size(p),
        fetch_partition_response_size(p) >= 22,
{
    lemma_sum_of_push(t.partitions@, p, fetch_partition_response_sizes());
    lemma_batches_wire_len(p.records@);
}

/// A fetch response with no topic takes 8 bytes: throttle time and count.
pub proof fn lemma_fetch_response_size_no_topics(r: FetchResponse)
    requires
        r.responses@.len() == 0,
    ensures
        fetch_response_size(r) == 8,
{
}

/// Adding a topic response to a fetch response grows its size by that topic
/// response's size, which is at least 6.
pub proof fn lemma_fetch_response_size_push(r: FetchResponse, s: FetchResponse, t: TopicResponse)
    requires
        s.responses@ == r.responses@.push(t),
    ensures
        fetch_response_size(s) == fetch_response_size(r) + fetch_topic_response_size(t),
        fetch_topic_response_size(t) >= 6,
{
    lemma_sum_of_push(r.responses@, t, fetch_topic_response_sizes());
    crate::protocol::fetch::lemma_fetch_sizes_nonneg();
    crate::size::lemma_sum_of_nonneg(t.partitions@, fetch_partition_response_sizes());
}

/// A produce partition response takes 33 bytes and its error message, and 8
/// more when it names a leader.
pub proof fn lemma_produce_partition_response_size_bounds(x: ProducePartitionResponse)
    ensures
        partition_response_size(x) >= 33,
        x.current_leader is Some ==> partition_response_size(x) >= 41,
        x.error_message@.len() == 0 ==> partition_response_size(x) == if x.current_leader is Some {
            41int
        } else {
            33int
        },
{
    if x.error_message@.len() == 0 {
        assert(vstd::utf8::encode_utf8(x.error_message@) =~= Seq::<u8>::empty());
    }
}

/// A produce topic response with no partition response takes 2 length
/// bytes, its name (its byte length counted modulo 2^32) and 4 count bytes.
pub proof fn lemma_produce_topic_response_size_no_partitions(t: ProduceTopicResponse)
    requires
        t.partition_responses@.len() == 0,
    ensures
        topic_response_size(t) == 6 + (byte_len(t.topic@) as u32),
{
}

/// Adding a partition response to a produce topic response grows its size
/// by that partition response's size, at least 33 bytes.
pub proof fn lemma_produce_topic_response_size_push(
    t: ProduceTopicResponse,
    u: ProduceTopicResponse,
    x: ProducePartitionResponse,
)
    requires
        u.topic@ == t.topic@,
        u.partition_responses@ == t.partition_responses@.push(x),
    ensures
        topic_response_size(u) == topic_response_size(t) + partition_response_size(x),
        topic_response_size(u) >= topic_response_size(t) + 33,
{
    lemma_sum_of_push(t.partition_responses@, x, partition_response_sizes());
}

/// A produce topic response takes at least 6 bytes and 33 more for each
/// partition response it carries.
pub proof fn lemma_produce_topic_response_size_lower_bound(t: ProduceTopicResponse)
    ensures
        topic_response_size(t) >= 6 + 33 * t.partition_responses@.len(),
{
    lemma_sum_at_least(t.partition_responses@);
}

proof fn lemma_sum_at_least(s: Seq<ProducePartitionResponse>)
    ensures
        sum_of(s, partition_response_sizes()) >= 33 * s.len(),
    decreases s.len(),
{
    if s.len() > 0 {
        lemma_sum_at_least(s.drop_last());
    }
}

/// A produce response with no topic takes 8 bytes: throttle time and count.
pub proof fn lemma_produce_response_size_no_topics(r: ProduceResponse)
    requires
        r.responses@.len() == 0,
    ensures
        produce_response_size(r) == 8,
{
}

/// Adding a topic response to a produce response grows its size by that
/// topic response's size.
pub proof fn lemma_produce_response_size_push(r: ProduceResponse, s: ProduceResponse, t: ProduceTopicResponse)
    requires
        s.responses@ == r.responses@.push(t),
    ensures
        produce_response_size(s) == produce_response_size(r) + topic_response_size(t),
        topic_response_size(t) >= 6 + 33 * t.partition_responses@.len(),
{
    lemma_sum_of_push(r.responses@, t, topic_response_sizes());
    lemma_produce_topic_response_size_lower_bound(t);
}

/// A sum of one same share over a sequence is that share times its length.
proof fn lemma_sum_of_constant<T>(s: Seq<T>, f: spec_fn(T) -> int, c: int)
    requires
        forall|x: T| #[trigger] f(x) == c,
    ensures
        sum_of(s, f) == c * s.len(),
    decreases s.len(),
{
    if s.len() > 0 {
        lemma_sum_of_constant(s.drop_last(), f, c);
        assert(c * s.len() == c * (s.len() - 1) + c) by (nonlinear_arith);
    }
}

/// A topic entry of a metadata response takes 8 bytes, its name (its byte
/// length counted modulo 2^32) and 22 bytes for each partition.
pub proof fn lemma_topic_metadata_size_counts_partitions(t: TopicMetadata)
    ensures
        topic_metadata_size(t) == 8 + (byte_len(t.name@) as u32) + 22 * t.partitions@.len(),
{
    lemma_sum_of_constant(t.partitions@, partition_metadata_sizes(), 22);
}

/// A topic to create takes 10 bytes, its name (its byte length counted
/// modulo 2^32) and 8 bytes for each assignment.
pub proof fn lemma_topic_request_size_counts_assignments(t: TopicRequest)
    ensures
        topic_request_size(t) == 10 + (byte_len(t.name@) as u32) + 8 * t.assignments@.len(),
{
    lemma_sum_of_constant(t.assignments@, assignment_sizes(), 8);
}

/// A metadata response with no broker and no topic takes 18 bytes; adding a
/// broker grows it by that broker's entry, adding a topic by that topic's.
pub proof fn lemma_metadata_response_size_push(
    r: MetadataResponse,
    s: MetadataResponse,
    b: BrokerMetadata,
    t: TopicMetadata,
)
    ensures
        r.brokers@.len() == 0 && r.topics@.len() == 0 ==> metadata_response_size(r) == 18,
        s.brokers@ == r.brokers@.push(b) && s.topics@ == r.topics@ ==> metadata_response_size(s)
            == metadata_response_size(r) + broker_metadata_size(b),
        s.brokers@ == r.brokers@ && s.topics@ == r.topics@.push(t) ==> metadata_response_size(s)
            == metadata_response_size(r) + topic_metadata_size(t),
        broker_metadata_size(b) >= 10,
        topic_metadata_size(t) >= 8,
{
    lemma_sum_of_push(r.brokers@, b, broker_metadata_sizes());
    lemma_sum_of_push(r.topics@, t, topic_metadata_sizes());
    lemma_topic_metadata_size_counts_partitions(t);
}

/// A metadata request with no topic takes 5 bytes; adding a topic name grows
/// it by 2 and the name's byte length (counted modulo 2^32).
pub proof fn lemma_metadata_request_size_push(r: MetadataRequest, s: MetadataRequest, name: String)
    ensures
        r.topics@.len() == 0 ==> metadata_request_size(r) == 5,
        s.topics@ == r.topics@.push(name) ==> metadata_request_size(s) == metadata_request_size(r) + 2
            + (byte_len(name@) as u32),
{
    lemma_sum_of_push(r.topics@, name, requested_topic_sizes());
}

/// A topic-creation request with no topic takes 7 bytes; adding a topic
/// grows it by that topic's size.
pub proof fn lemma_create_topic_request_size_push(r: CreateTopicRequest, s: CreateTopicRequest, t: TopicRequest)
    ensures
        r.topics@.len() == 0 ==> create_topic_request_size(r) == 7,
        s.topics@ == r.topics@.push(t) ==> create_topic_request_size(s) == create_topic_request_size(r)
            + topic_request_size(t),
        topic_request_size(t) >= 10,
{
    lemma_sum_of_push(r.topics@, t, topic_request_sizes());
    lemma_topic_request_size_counts_assignments(t);
}

/// A topic-creation response with no topic takes 6 bytes; adding a created
/// topic grows it by that topic's size, at least 12 bytes.
pub proof fn lemma_create_topic_response_size_push(
    r: CreateTopicResponse,
    s: CreateTopicResponse,
    t: CreatedTopic,
)
    ensures
        r.topics@.len() == 0 ==> create_topic_response_size(r) == 6,
        s.topics@ == r.topics@.push(t) ==> create_topic_response_size(s) == create_topic_response_size(r)
            + created_topic_size(t),
        created_topic_size(t) >= 12,
{
    lemma_sum_of_push(r.topics@, t, created_topic_sizes());
}

} // verus!
