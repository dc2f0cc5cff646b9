//! Fetch requests and responses of the first message format.

use vstd::prelude::*;
use crate::batch::Batch;

verus! {

pub struct FetchRequest {
    pub replica_id: i32,
    pub max_bytes: u32,
    pub topics: Vec<FetchTopic>,
}

pub struct FetchTopic {
    pub topic: String,
    pub partitions: Vec<FetchPartition>,
}

pub struct FetchPartition {
    pub partition: u32,
    pub fetch_offset: u64,
    /// Only used when the request is sent by a follower.
    pub log_start_offset: Option<u64>,
    /// This limit may not be honored.
    pub partition_max_bytes: u32,
    /// Only used when the request is sent by a follower.
    pub high_watermark: Option<u64>,
}

pub struct FetchResponse {
    pub throttle_time_ms: u32,
    pub responses: Vec<TopicResponse>,
}

pub struct TopicResponse {
    pub topic: String,
    pub partitions: Vec<PartitionResponse>,
}

pub struct PartitionResponse {
    pub partition_index: u32,
    pub error_code: u16,
    pub high_watermark: u64,
    pub log_start_offset: u64,
    pub records: Vec<Batch>,
}

} // verus!
