use bytes::Bytes;

use rafka::network::{decode_request, ConnectionError};
use rafka::partition::handle::replica_ack;
use rafka::protocol::body::FrameBody;
use rafka::protocol::codec::ParseError;
use rafka::protocol::error_codes::ErrorCode;
use rafka::protocol::fetch::PartitionResponse;
use rafka::protocol::header::{ApiKey, RequestHeader};
use rafka::protocol::produce::{Acks, ProduceRequest};
use rafka::protocol::Frame;

fn empty_produce_frame(correlation_id: u32) -> Frame {
    Frame {
        size: 0,
        header: RequestHeader { api_key: ApiKey::Produce, api_version: 0, correlation_id, client_id: None },
        body: FrameBody::Produce(ProduceRequest { transactional_id: 0, acks: Acks::Leader, timeout_ms: 10, topics: vec![] }),
    }
}

#[test]
fn decode_request_reads_an_encoded_frame() {
    let bytes = empty_produce_frame(99).encode();
    match decode_request(&bytes) {
        Some(Ok(frame)) => {
            assert_eq!(frame.header.correlation_id, 99);
            assert_eq!(frame.size as usize, bytes.len() - 4);
        },
        _ => panic!("expected a frame"),
    }
}

#[test]
fn decode_request_reports_a_bad_api_key() {
    let mut bytes = empty_produce_frame(1).encode().to_vec();
    bytes[7] = 99;
    match decode_request(&Bytes::from(bytes)) {
        Some(Err(ConnectionError::Protocol(e))) => assert_eq!(e, ParseError::InvalidApiKey),
        _ => panic!("expected a protocol error"),
    }
}

#[test]
fn decode_request_knows_a_truncated_frame() {
    let bytes = empty_produce_frame(1).encode();
    assert!(decode_request(&bytes.slice(0..10)).is_none());
}

#[test]
fn replica_fetch_acknowledges_log_start_offset() {
    let mut res = PartitionResponse::error(3, ErrorCode::NoError);
    res.log_start_offset = 12;
    assert_eq!(replica_ack(2, &res), Some((2, 12)));
    assert_eq!(replica_ack(-1, &res), None);
}
