//! The body of a frame: one request or response.

use vstd::prelude::*;
use vstd::std_specs::convert::FromSpecImpl;
use crate::protocol::fetch::{FetchRequest, FetchResponse, FetchTopic, fetch_response_size};
use crate::protocol::metadata::{
    CreateTopicRequest, CreateTopicResponse, MetadataRequest, MetadataResponse,
    metadata_request_size, metadata_response_size, create_topic_request_size,
    create_topic_response_size,
};
use crate::protocol::produce::{
    ProducePartitionView, ProduceRequest, ProduceRequestView, ProduceResponse, ProduceTopicView,
    byte_len, produce_response_size,
};
use crate::size::{sum_of, lemma_sum_of_take_next, lemma_sum_of_prefix_le, lemma_sum_of_nonneg};

verus! {

#[derive(Debug)]
pub enum FrameBody {
    Produce(ProduceRequest),
    ProduceResponse(ProduceResponse),
    Fetch(FetchRequest),
    FetchResponse(FetchResponse),
    Metadata(MetadataRequest),
    MetadataResponse(MetadataResponse),
    Topic(CreateTopicRequest),
    TopicResponse(CreateTopicResponse),
}

/// Size of a partition in a produce request: index 2, batch length 4, the
/// batch's 16 header bytes and its records.
pub open spec fn produce_partition_size(p: ProducePartitionView) -> int {
    2 + 4 + 16 + p.records.records.len() as int
}

pub open spec fn produce_partition_sizes() -> spec_fn(ProducePartitionView) -> int {
    |p: ProducePartitionView| produce_partition_size(p)
}

/// Size of a topic in a produce request: name length 2 and name (the
/// length counted modulo 2^32), partition count 4, partitions.
pub open spec fn produce_topic_size(t: ProduceTopicView) -> int {
    2 + (byte_len(t.topic) as u32) + 4 + sum_of(t.partitions, produce_partition_sizes())
}

pub open spec fn produce_topic_sizes() -> spec_fn(ProduceTopicView) -> int {
    |t: ProduceTopicView| produce_topic_size(t)
}

/// Size of a produce request: transactional id 8, acks 4, timeout 8, topic
/// count 2, topics.
pub open spec fn produce_request_size(r: ProduceRequestView) -> int {
    8 + 4 + 8 + 2 + sum_of(r.topics, produce_topic_sizes())
}

/// Size of a topic in a fetch request: name length 2 and name, count 4,
/// and 24 per partition (the count taken modulo 2^32).
pub open spec fn fetch_topic_size(t: FetchTopic) -> int {
    2 + (byte_len(t.topic@) as u32) + 4 + (t.partitions@.len() as u32) * 24
}

pub open spec fn fetch_topic_sizes() -> spec_fn(FetchTopic) -> int {
    |t: FetchTopic| fetch_topic_size(t)
}

/// Size of a fetch request: replica id 4, max bytes 4, topic count 4, topics.
pub open spec fn fetch_request_size(r: FetchRequest) -> int {
    4 + 4 + 4 + sum_of(r.topics@, fetch_topic_sizes())
}

/// Size of a body on the wire.
pub open spec fn frame_body_size(b: FrameBody) -> int {
    match b {
        FrameBody::Produce(req) => produce_request_size(req@),
        FrameBody::ProduceResponse(r) => produce_response_size(r),
        FrameBody::Fetch(req) => fetch_request_size(req),
        FrameBody::FetchResponse(r) => fetch_response_size(r),
        FrameBody::Metadata(r) => metadata_request_size(r),
        FrameBody::MetadataResponse(r) => metadata_response_size(r),
        FrameBody::Topic(r) => create_topic_request_size(r),
        FrameBody::TopicResponse(r) => create_topic_response_size(r),
    }
}

/// None of the produce and fetch request sizes is negative.
pub proof fn lemma_request_sizes_nonneg()
    ensures
        forall|p: ProducePartitionView| #[trigger] produce_partition_sizes()(p) >= 0,
        forall|t: ProduceTopicView| #[trigger] produce_topic_sizes()(t) >= 0,
        forall|t: FetchTopic| #[trigger] fetch_topic_sizes()(t) >= 0,
{
    assert forall|t: ProduceTopicView| #[trigger] produce_topic_sizes()(t) >= 0 by {
        lemma_sum_of_nonneg(t.partitions, produce_partition_sizes());
    }
}

impl FrameBody {
    /// Bytes the body takes on the wire.
    pub fn get_size(&self) -> (r: u32)
        requires
            frame_body_size(*self) <= u32::MAX,
        ensures
            r == frame_body_size(*self),
    {
        match &self {
            FrameBody::Produce(req) => {
                let ghost f = produce_topic_sizes();
                let ghost s = req@.topics;
                let mut topics_size: u32 = 0;
                let mut i: usize = 0;
                while i < req.topics.len()
                    invariant
                        s == req@.topics,
                        f == produce_topic_sizes(),
                        produce_request_size(req@) <= u32::MAX,
                        i <= s.len(),
                        topics_size == sum_of(s.take(i as int), f),
                    decreases s.len() - i,
                {
                    proof {
                        lemma_request_sizes_nonneg();
                        lemma_sum_of_take_next(s, f, i as int);
                        lemma_sum_of_prefix_le(s, f, i as int + 1);
                    }
                    let t = &req.topics[i];
                    let ghost g = produce_partition_sizes();
                    let ghost ps = t@.partitions;
                    let mut partitions_size: u32 = 0;
                    let mut j: usize = 0;
                    while j < t.partitions.len()
                        invariant
                            ps == t@.partitions,
                            g == produce_partition_sizes(),
                            produce_topic_size(t@) <= u32::MAX,
                            j <= ps.len(),
                            partitions_size == sum_of(ps.take(j as int), g),
                        decreases ps.len() - j,
                    {
                        proof {
                            lemma_request_sizes_nonneg();
                            lemma_sum_of_take_next(ps, g, j as int);
                            lemma_sum_of_prefix_le(ps, g, j as int + 1);
                        }
                        partitions_size = partitions_size + (2 + 4 + t.partitions[j].records.get_size());
                        j = j + 1;
                    }
                    assert(ps.take(ps.len() as int) =~= ps);
                    topics_size = topics_size + (2 + t.topic.as_str().len() as u32 + 4
                        + partitions_size);
                    i = i + 1;
                }
                assert(s.take(s.len() as int) =~= s);
                8 + 4 + 8 + 2 + topics_size
            },
            FrameBody::ProduceResponse(produce_response) => produce_response.get_size(),
            FrameBody::Fetch(req) => {
                let ghost f = fetch_topic_sizes();
                let ghost s = req.topics@;
                let mut topics_size: u32 = 0;
                let mut i: usize = 0;
                while i < req.topics.len()
                    invariant
                        s == req.topics@,
                        f == fetch_topic_sizes(),
                        fetch_request_size(*req) <= u32::MAX,
                        i <= s.len(),
                        topics_size == sum_of(s.take(i as int), f),
                    decreases s.len() - i,
                {
                    proof {
                        lemma_request_sizes_nonneg();
                        lemma_sum_of_take_next(s, f, i as int);
                        lemma_sum_of_prefix_le(s, f, i as int + 1);
                    }
                    let t = &req.topics[i];
                    topics_size = topics_size + (2 + t.topic.as_str().len() as u32 + 4
                        + t.partitions.len() as u32 * 24);
                    i = i + 1;
                }
                assert(s.take(s.len() as int) =~= s);
                4 + 4 + 4 + topics_size
            },
            FrameBody::FetchResponse(fetch_response) => fetch_response.get_size(),
            FrameBody::Metadata(metadata_request) => metadata_request.get_size(),
            FrameBody::MetadataResponse(metadata_response) => metadata_response.get_size(),
            FrameBody::Topic(req) => req.get_size(),
            FrameBody::TopicResponse(resp) => resp.get_size(),
        }
    }
}

impl From<ProduceRequest> for FrameBody {
    fn from(value: ProduceRequest) -> (r: Self) {
        FrameBody::Produce(value)
    }
}

impl FromSpecImpl<ProduceRequest> for FrameBody {
    open spec fn obeys_from_spec() -> bool {
        true
    }

    open spec fn from_spec(v: ProduceRequest) -> FrameBody {
        FrameBody::Produce(v)
    }
}

impl From<ProduceResponse> for FrameBody {
    fn from(value: ProduceResponse) -> (r: Self) {
        FrameBody::ProduceResponse(value)
    }
}

impl FromSpecImpl<ProduceResponse> for FrameBody {
    open spec fn obeys_from_spec() -> bool {
        true
    }

    open spec fn from_spec(v: ProduceResponse) -> FrameBody {
        FrameBody::ProduceResponse(v)
    }
}

impl From<FetchRequest> for FrameBody {
    fn from(value: FetchRequest) -> (r: Self) {
        FrameBody::Fetch(value)
    }
}

impl FromSpecImpl<FetchRequest> for FrameBody {
    open spec fn obeys_from_spec() -> bool {
        true
    }

    open spec fn from_spec(v: FetchRequest) -> FrameBody {
        FrameBody::Fetch(v)
    }
}

impl From<FetchResponse> for FrameBody {
    fn from(value: FetchResponse) -> (r: Self) {
        FrameBody::FetchResponse(value)
    }
}

impl FromSpecImpl<FetchResponse> for FrameBody {
    open spec fn obeys_from_spec() -> bool {
        true
    }

    open spec fn from_spec(v: FetchResponse) -> FrameBody {
        FrameBody::FetchResponse(v)
    }
}

impl From<MetadataRequest> for FrameBody {
    fn from(value: MetadataRequest) -> (r: Self) {
        FrameBody::Metadata(value)
    }
}

impl FromSpecImpl<MetadataRequest> for FrameBody {
    open spec fn obeys_from_spec() -> bool {
        true
    }

    open spec fn from_spec(v: MetadataRequest) -> FrameBody {
        FrameBody::Metadata(v)
    }
}

impl From<MetadataResponse> for FrameBody {
    fn from(value: MetadataResponse) -> (r: Self) {
        FrameBody::MetadataResponse(value)
    }
}

impl FromSpecImpl<MetadataResponse> for FrameBody {
    open spec fn obeys_from_spec() -> bool {
        true
    }

    open spec fn from_spec(v: MetadataResponse) -> FrameBody {
        FrameBody::MetadataResponse(v)
    }
}

impl From<CreateTopicRequest> for FrameBody {
    fn from(value: CreateTopicRequest) -> (r: Self) {
        FrameBody::Topic(value)
    }
}

impl FromSpecImpl<CreateTopicRequest> for FrameBody {
    open spec fn obeys_from_spec() -> bool {
        true
    }

    open spec fn from_spec(v: CreateTopicRequest) -> FrameBody {
        FrameBody::Topic(v)
    }
}

impl From<CreateTopicResponse> for FrameBody {
    fn from(value: CreateTopicResponse) -> (r: Self) {
        FrameBody::TopicResponse(value)
    }
}

impl FromSpecImpl<CreateTopicResponse> for FrameBody {
    open spec fn obeys_from_spec() -> bool {
        true
    }

    open spec fn from_spec(v: CreateTopicResponse) -> FrameBody {
        FrameBody::TopicResponse(v)
    }
}

} // verus!
