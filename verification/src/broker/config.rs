//! How a broker is set up: who it is, where it listens, and its topics.

use vstd::prelude::*;
use crate::partition::config::PartitionConfig;
use crate::protocol::metadata::BrokerMetadata;

verus! {

#[derive(Clone, Debug)]
pub struct BrokerConfig {
    pub node_id: i32,
    pub host: String,
    pub port: i32,
    pub topics: Vec<TopicConfig>,
}

#[derive(Clone, Debug)]
pub struct TopicConfig {
    pub partitions: Vec<PartitionConfig>,
}

impl BrokerConfig {
    /// The broker as metadata describes it: its id, host and port.
    pub fn into(&self) -> (r: BrokerMetadata)
        ensures
            r.node_id == self.node_id,
            r.host@ == self.host@,
            r.port == self.port,
    {
        BrokerMetadata { node_id: self.node_id, host: self.host.clone(), port: self.port }
    }
}

} // verus!
