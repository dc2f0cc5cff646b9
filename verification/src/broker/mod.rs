//! What the broker answers: a fetch or produce response in a frame that
//! carries the request's header and the size of the whole.

use vstd::prelude::*;
use crate::protocol::Frame;
use crate::protocol::body::FrameBody;
use crate::protocol::fetch::{FetchResponse, TopicResponse, fetch_response_size};
use crate::protocol::header::{RequestHeader, request_header_size};
use crate::protocol::produce::{ProduceResponse, ProduceTopicResponse, produce_response_size};
use crate::buffer::bytes_from_vec;
use crate::record::record_bytes;
use crate::storage::record::Record;
use crate::storage::record_batch::{RecordBatch, RecordBatchView};

pub mod config;
pub mod image;
pub mod metadata;

verus! {

/// The frame answering a fetch: the request's header, and a fetch response
/// with the throttle time and the topics' responses; its size is the
/// response's size plus the header's.
pub fn fetch_response_frame(header: RequestHeader, throttle_time_ms: u32, responses: Vec<TopicResponse>) -> (r: Frame)
    requires
        fetch_response_size(FetchResponse { throttle_time_ms, responses }) + request_header_size(
            header@,
        ) <= u32::MAX,
    ensures
        r.size == fetch_response_size(FetchResponse { throttle_time_ms, responses })
            + request_header_size(header@),
        r.header@ == header@,
        r.body matches FrameBody::FetchResponse(b) && b.throttle_time_ms == throttle_time_ms
            && b.responses@ == responses@,
{
    let fetch_response = FetchResponse { throttle_time_ms, responses };
    let size = fetch_response.get_size() + header.get_size();
    Frame { size, header, body: FrameBody::FetchResponse(fetch_response) }
}

/// The frame answering a produce request: the request's header, and a
/// produce response with the throttle time and the topics' responses; its
/// size is the response's size plus the header's.
pub fn produce_response_frame(
    header: RequestHeader,
    throttle_time_ms: u32,
    responses: Vec<ProduceTopicResponse>,
) -> (r: Frame)
    requires
        produce_response_size(ProduceResponse { throttle_time_ms, responses })
            + request_header_size(header@) <= u32::MAX,
    ensures
        r.size == produce_response_size(ProduceResponse { throttle_time_ms, responses })
            + request_header_size(header@),
        r.header@ == header@,
        r.body matches FrameBody::ProduceResponse(b) && b.throttle_time_ms == throttle_time_ms
            && b.responses@ == responses@,
{
    let produce_response = ProduceResponse { throttle_time_ms, responses };
    let size = produce_response.get_size() + header.get_size();
    Frame { size, header, body: FrameBody::ProduceResponse(produce_response) }
}

/// A batch of the one record, at base offset 0.
pub fn make_batch(record: Record) -> (r: RecordBatch)
    requires
        28 + record.key@.len() + record.value@.len() <= u32::MAX,
    ensures
        r@ == (RecordBatchView {
            base_offset: 0,
            batch_length: (28 + record.key@.len() + record.value@.len()) as u32,
            records_count: 1,
            records: record_bytes(record.offset_delta, record.timestamp, record.key@, record.value@),
        }),
{
    let encoded = record.encode();
    proof {
        vstd::bytes::lemma_auto_spec_u64_to_from_le_bytes();
        vstd::bytes::lemma_auto_spec_u32_to_from_le_bytes();
    }
    assert(encoded@.len() == 24 + record.key@.len() + record.value@.len());
    let batch_length = 4 + encoded.len() as u32;
    RecordBatch { base_offset: 0, batch_length, records_count: 1, records: bytes_from_vec(encoded) }
}

/// The batch that records an encoded metadata record in the cluster's
/// metadata log: one record with no key, the encoding as its value, stamped
/// with `timestamp`.
pub fn metadata_batch(value: Vec<u8>, timestamp: u64) -> (r: RecordBatch)
    requires
        28 + value@.len() <= u32::MAX,
    ensures
        r@ == (RecordBatchView {
            base_offset: 0,
            batch_length: (28 + value@.len()) as u32,
            records_count: 1,
            records: record_bytes(0, timestamp, Seq::empty(), value@),
        }),
{
    make_batch(Record { offset_delta: 0, timestamp, key: Vec::new(), value })
}

} // verus!
