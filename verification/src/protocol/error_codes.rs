//! Error codes carried in responses.

use vstd::prelude::*;

verus! {

#[derive(Debug, Clone, Copy, PartialEq, Eq, Structural)]
pub enum ErrorCode {
    NoError,
    UnknownTopicOrPartition,
}

} // verus!
