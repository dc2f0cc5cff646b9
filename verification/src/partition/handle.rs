//! What a fetch through a partition's handle tells the partition.

use vstd::prelude::*;
use crate::protocol::fetch::PartitionResponse;

verus! {

/// The acknowledgement a served fetch carries to the partition: a fetch
/// made by a replica (a replica id that is not negative) says that replica
/// holds the log up to the response's log start offset; a consumer's fetch
/// says nothing.
pub fn replica_ack(replica_id: i32, res: &PartitionResponse) -> (r: Option<(u32, u64)>)
    ensures
        replica_id >= 0 ==> r == Some((replica_id as u32, res.log_start_offset)),
        replica_id < 0 ==> r is None,
{
    if replica_id >= 0 {
        Some((replica_id as u32, res.log_start_offset))
    } else {
        None
    }
}

} // verus!
