//! Names a partition of a topic.

use vstd::prelude::*;

verus! {

#[derive(Debug, Clone, PartialEq, Eq, Hash)]
pub struct TopicPartition {
    pub topic_id: String,
    pub partition_id: u16,
}

} // verus!
