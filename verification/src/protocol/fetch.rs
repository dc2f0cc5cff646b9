//! Fetch requests and responses.

use vstd::prelude::*;
use crate::buffer::bytes_view;
use crate::protocol::error_codes::ErrorCode;
use crate::protocol::produce::byte_len;
use crate::size::{sum_of, lemma_sum_of_take_next, lemma_sum_of_prefix_le, lemma_sum_of_nonneg};
use crate::storage::record_batch::RecordBatch;

verus! {

#[derive(Debug)]
pub struct FetchPartition {
    pub partition: u32,
    pub fetch_offset: u64,
    /// This limit may not be honored.
    pub partition_max_bytes: u32,
    pub high_watermark: u64,
}

#[derive(Debug)]
pub struct FetchTopic {
    pub topic: String,
    pub partitions: Vec<FetchPartition>,
}

#[derive(Debug)]
pub struct FetchRequest {
    pub replica_id: i32,
    pub max_bytes: u32,
    pub topics: Vec<FetchTopic>,
}

#[derive(Debug)]
pub struct PartitionResponse {
    pub partition_index: u32,
    pub error_code: ErrorCode,
    pub high_watermark: u64,
    pub log_start_offset: u64,
    pub records: Vec<RecordBatch>,
}

#[derive(Debug)]
pub struct TopicResponse {
    pub topic: String,
    pub partitions: Vec<PartitionResponse>,
}

#[derive(Debug)]
pub struct FetchResponse {
    pub throttle_time_ms: u32,
    pub responses: Vec<TopicResponse>,
}

/// Size of a batch on the wire: 16 header bytes and the records.
pub open spec fn batch_size(b: RecordBatch) -> int {
    16 + bytes_view(b.records).len() as int
}

/// `batch_size` as a function value.
pub open spec fn batch_sizes() -> spec_fn(RecordBatch) -> int {
    |b: RecordBatch| batch_size(b)
}

/// Size of a partition response: index 4, error code 2, high watermark 8,
/// start offset 8, then the batches.
pub open spec fn fetch_partition_response_size(p: PartitionResponse) -> int {
    22 + sum_of(p.records@, batch_sizes())
}

/// `fetch_partition_response_size` as a function value.
pub open spec fn fetch_partition_response_sizes() -> spec_fn(PartitionResponse) -> int {
    |p: PartitionResponse| fetch_partition_response_size(p)
}

/// Size of a topic response: name length 2 and name, count 4, partitions.
pub open spec fn fetch_topic_response_size(t: TopicResponse) -> int {
    2 + (byte_len(t.topic@) as u32) + 4 + sum_of(t.partitions@, fetch_partition_response_sizes())
}

/// `fetch_topic_response_size` as a function value.
pub open spec fn fetch_topic_response_sizes() -> spec_fn(TopicResponse) -> int {
    |t: TopicResponse| fetch_topic_response_size(t)
}

/// Size of a fetch response: throttle time 4, count 4, topics.
pub open spec fn fetch_response_size(r: FetchResponse) -> int {
    8 + sum_of(r.responses@, fetch_topic_response_sizes())
}

/// None of these sizes is negative.
pub proof fn lemma_fetch_sizes_nonneg()
    ensures
        forall|b: RecordBatch| #[trigger] batch_sizes()(b) >= 0,
        forall|p: PartitionResponse| #[trigger] fetch_partition_response_sizes()(p) >= 0,
        forall|t: TopicResponse| #[trigger] fetch_topic_response_sizes()(t) >= 0,
{
    assert forall|p: PartitionResponse| #[trigger] fetch_partition_response_sizes()(p) >= 0 by {
        lemma_sum_of_nonneg(p.records@, batch_sizes());
    }
    assert forall|t: TopicResponse| #[trigger] fetch_topic_response_sizes()(t) >= 0 by {
        lemma_sum_of_nonneg(t.partitions@, fetch_partition_response_sizes());
    }
}

impl PartitionResponse {
    /// A response for a partition that could not be read, carrying the code.
    pub fn error(partition_index: u32, error_code: ErrorCode) -> (r: Self)
        ensures
            r.partition_index == partition_index,
            r.error_code == error_code,
            r.high_watermark == 0,
            r.log_start_offset == 0,
            r.records@.len() == 0,
    {
        PartitionResponse {
            partition_index,
            error_code,
            high_watermark: 0,
            log_start_offset: 0,
            records: Vec::new(),
        }
    }

    /// Bytes the response takes on the wire.
    pub fn get_size(&self) -> (r: u32)
        requires
            fetch_partition_response_size(*self) <= u32::MAX,
        ensures
            r == fetch_partition_response_size(*self),
    {
        let ghost f = batch_sizes();
        let ghost s = self.records@;
        let mut total: u32 = 0;
        let mut i: usize = 0;
        while i < self.records.len()
            invariant
                s == self.records@,
                f == batch_sizes(),
                fetch_partition_response_size(*self) <= u32::MAX,
                i <= s.len(),
                total == sum_of(s.take(i as int), f),
            decreases s.len() - i,
        {
            proof {
                lemma_fetch_sizes_nonneg();
                lemma_sum_of_take_next(s, f, i as int);
                lemma_sum_of_prefix_le(s, f, i as int + 1);
            }
            total = total + self.records[i].get_size();
            i = i + 1;
        }
        assert(s.take(s.len() as int) =~= s);
        4 + 2 + 8 + 8 + total
    }
}

impl TopicResponse {
    /// Bytes the response takes on the wire.
    pub fn get_size(&self) -> (r: u32)
        requires
            fetch_topic_response_size(*self) <= u32::MAX,
        ensures
            r == fetch_topic_response_size(*self),
    {
        let ghost f = fetch_partition_response_sizes();
        let ghost s = self.partitions@;
        let mut total: u32 = 0;
        let mut i: usize = 0;
        while i < self.partitions.len()
            invariant
                s == self.partitions@,
                f == fetch_partition_response_sizes(),
                fetch_topic_response_size(*self) <= u32::MAX,
                i <= s.len(),
                total == sum_of(s.take(i as int), f),
            decreases s.len() - i,
        {
            proof {
                lemma_fetch_sizes_nonneg();
                lemma_sum_of_take_next(s, f, i as int);
                lemma_sum_of_prefix_le(s, f, i as int + 1);
            }
            total = total + self.partitions[i].get_size();
            i = i + 1;
        }
        assert(s.take(s.len() as int) =~= s);
        2 + self.topic.as_str().len() as u32 + 4 + total
    }
}

impl FetchResponse {
    /// Bytes the response takes on the wire.
    pub fn get_size(&self) -> (r: u32)
        requires
            fetch_response_size(*self) <= u32::MAX,
        ensures
            r == fetch_response_size(*self),
    {
        let ghost f = fetch_topic_response_sizes();
        let ghost s = self.responses@;
        let mut total: u32 = 0;
        let mut i: usize = 0;
        while i < self.responses.len()
            invariant
                s == self.responses@,
                f == fetch_topic_response_sizes(),
                fetch_response_size(*self) <= u32::MAX,
                i <= s.len(),
                total == sum_of(s.take(i as int), f),
            decreases s.len() - i,
        {
            proof {
                lemma_fetch_sizes_nonneg();
                lemma_sum_of_take_next(s, f, i as int);
                lemma_sum_of_prefix_le(s, f, i as int + 1);
            }
            total = total + self.responses[i].get_size();
            i = i + 1;
        }
        assert(s.take(s.len() as int) =~= s);
        4 + 4 + total
    }
}

} // verus!
