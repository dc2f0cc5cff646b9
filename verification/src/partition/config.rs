//! How a partition is set up.

use vstd::prelude::*;
use crate::replica::ReplicaMetadata;

verus! {

#[derive(Clone, Debug)]
pub struct PartitionConfig {
    /// Log bytes after which the active segment is rolled.
    pub segment_bytes: usize,
    /// Capacity of the partition's command channel.
    pub channel_size: usize,
    pub replicas: Vec<ReplicaMetadata>,
    pub partition_id: u16,
    pub broker_id: u16,
    pub base_dir: String,
    pub topic_id: String,
}

impl PartitionConfig {
    /// A segment rolls after a mebibyte by default.
    pub fn default_segment_bytes() -> (r: usize)
        ensures
            r == 1048576,
    {
        assert(1usize << 20usize == 1048576) by (bit_vector);
        1 << 20
    }

    /// The command channel holds 65536 commands by default.
    pub fn default_channel_size() -> (r: usize)
        ensures
            r == 65536,
    {
        assert(1usize << 16usize == 65536) by (bit_vector);
        1 << 16
    }

    /// A partition of `topic_id` under `base_dir` with the default segment
    /// size and channel size and no replicas.
    pub fn new(partition_id: u16, broker_id: u16, base_dir: String, topic_id: String) -> (r: Self)
        ensures
            r.segment_bytes == 1048576,
            r.channel_size == 65536,
            r.replicas@.len() == 0,
            r.partition_id == partition_id,
            r.broker_id == broker_id,
            r.base_dir@ == base_dir@,
            r.topic_id@ == topic_id@,
    {
        PartitionConfig {
            segment_bytes: Self::default_segment_bytes(),
            channel_size: Self::default_channel_size(),
            replicas: Vec::new(),
            partition_id,
            broker_id,
            base_dir,
            topic_id,
        }
    }
}

} // verus!
