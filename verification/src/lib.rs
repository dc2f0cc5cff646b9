//! A small log-structured message broker: wire formats, records and
//! batches, partition state and the decisions of the partition actor.

pub mod batch;
pub mod broker;
pub mod buffer;
pub mod mapped;
pub mod message;
pub mod network;
pub mod producer;
pub mod partition;
pub mod protocol;
pub mod record;
pub mod replica;
pub mod segment;
pub mod size;
pub mod storage;
pub mod topic;
pub mod wire;
