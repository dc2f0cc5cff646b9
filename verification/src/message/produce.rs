//! The topics and partitions of a produce message.

use vstd::prelude::*;
use bytes::Bytes;
use crate::buffer::bytes_view;

verus! {

pub struct ProduceTopic {
    pub topic: String,
    pub partitions: Vec<ProducePartition>,
}

/// A partition's raw batch bytes.
pub struct ProducePartition {
    pub partition_id: u16,
    pub batch: Bytes,
}

pub struct ProducePartitionView {
    pub partition_id: u16,
    pub batch: Seq<u8>,
}

pub struct ProduceTopicView {
    pub topic: Seq<char>,
    pub partitions: Seq<ProducePartitionView>,
}

impl View for ProducePartition {
    type V = ProducePartitionView;

    open spec fn view(&self) -> ProducePartitionView {
        ProducePartitionView { partition_id: self.partition_id, batch: bytes_view(self.batch) }
    }
}

impl View for ProduceTopic {
    type V = ProduceTopicView;

    open spec fn view(&self) -> ProduceTopicView {
        ProduceTopicView {
            topic: self.topic@,
            partitions: self.partitions@.map_values(|p: ProducePartition| p@),
        }
    }
}

} // verus!
