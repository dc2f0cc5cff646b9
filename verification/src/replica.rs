//! What the leader knows of a follower replica.

use vstd::prelude::*;

verus! {

#[derive(Debug, Clone)]
pub struct ReplicaMetadata {
    pub broker_id: String,
    pub replica_id: u32,
    /// The offset up to which the replica has acknowledged the log.
    pub log_end_offset: u64,
}

impl ReplicaMetadata {
    /// A replica that has acknowledged nothing yet.
    pub fn empty(broker_id: String, replica_id: u32) -> (r: Self)
        ensures
            r.broker_id@ == broker_id@,
            r.replica_id == replica_id,
            r.log_end_offset == 0,
    {
        ReplicaMetadata { broker_id, replica_id, log_end_offset: 0 }
    }
}

} // verus!
