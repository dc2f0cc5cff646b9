//! The body of a message.

use vstd::prelude::*;
use crate::message::ack::Ack;
use crate::message::consumer::{FetchRequest, FetchResponse};
use crate::message::produce::{ProduceTopic, ProduceTopicView};

verus! {

pub enum MessageBody {
    Produce(ProduceRequest),
    ProduceResponse,
    Fetch(FetchRequest),
    FetchResponse(FetchResponse),
}

pub struct ProduceRequest {
    pub transactional_id: u64,
    pub acks: Ack,
    /// How long the request may wait, in milliseconds.
    pub timeout_ms: u64,
    pub topics: Vec<ProduceTopic>,
}

pub struct ProduceRequestView {
    pub transactional_id: u64,
    pub acks: Ack,
    pub timeout_ms: u64,
    pub topics: Seq<ProduceTopicView>,
}

impl View for ProduceRequest {
    type V = ProduceRequestView;

    open spec fn view(&self) -> ProduceRequestView {
        ProduceRequestView {
            transactional_id: self.transactional_id,
            acks: self.acks,
            timeout_ms: self.timeout_ms,
            topics: self.topics@.map_values(|t: ProduceTopic| t@),
        }
    }
}

} // verus!
