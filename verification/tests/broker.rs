use rafka::broker::config::BrokerConfig;
use rafka::broker::{fetch_response_frame, make_batch, metadata_batch, produce_response_frame};
use rafka::protocol::body::FrameBody;
use rafka::protocol::error_codes::ErrorCode;
use rafka::protocol::fetch::{PartitionResponse, TopicResponse};
use rafka::protocol::header::{ApiKey, RequestHeader};
use rafka::protocol::produce::{ProducePartitionResponse, ProduceTopicResponse};
use rafka::storage::record::Record;

fn header(correlation_id: u32) -> RequestHeader {
    RequestHeader { api_key: ApiKey::Fetch, api_version: 0, correlation_id, client_id: Some(String::from("cli")) }
}

#[test]
fn fetch_frame_size_adds_header_to_response() {
    let responses = vec![TopicResponse {
        topic: String::from("orders"),
        partitions: vec![PartitionResponse::error(99, ErrorCode::UnknownTopicOrPartition)],
    }];
    let frame = fetch_response_frame(header(42), 3, responses);
    // header 14 + 3; response 8 + topic (2 + 6 + 4 + partition (4 + 2 + 8 + 8))
    assert_eq!(frame.size, 17 + 8 + 12 + 22);
    assert_eq!(frame.header.correlation_id, 42);
    match frame.body {
        FrameBody::FetchResponse(b) => {
            assert_eq!(b.throttle_time_ms, 3);
            assert_eq!(b.responses[0].partitions[0].error_code, ErrorCode::UnknownTopicOrPartition);
        },
        _ => panic!("expected FetchResponse"),
    }
}

#[test]
fn produce_frame_preserves_correlation_id() {
    let responses = vec![ProduceTopicResponse {
        topic: String::from("orders"),
        partition_responses: vec![ProducePartitionResponse::new(0, 5, 1)],
    }];
    let frame = produce_response_frame(header(7), 0, responses);
    assert_eq!(frame.header.correlation_id, 7);
    match &frame.body {
        FrameBody::ProduceResponse(b) => {
            assert_eq!(b.responses[0].partition_responses[0].base_offset, 5);
            assert_eq!(frame.size, b.get_size() + frame.header.get_size());
        },
        _ => panic!("expected ProduceResponse"),
    }
}

#[test]
fn make_batch_wraps_one_record() {
    let record = Record { offset_delta: 0, timestamp: 9, key: b"k".to_vec(), value: b"vv".to_vec() };
    let encoded = record.encode();
    let batch = make_batch(record);
    assert_eq!(batch.base_offset, 0);
    assert_eq!(batch.records_count, 1);
    assert_eq!(batch.batch_length, 4 + 27);
    assert_eq!(&batch.records[..], &encoded[..]);
}

#[test]
fn metadata_batch_has_no_key() {
    let batch = metadata_batch(vec![1, 2, 3], 77);
    let (record, n) = Record::decode_raw(&batch.records).unwrap();
    assert_eq!(n, 27);
    assert_eq!(record.timestamp, 77);
    assert!(record.key.is_empty());
    assert_eq!(record.value, vec![1, 2, 3]);
}

#[test]
fn broker_config_into_metadata() {
    let cfg = BrokerConfig { node_id: 3, host: String::from("localhost"), port: 9092, topics: vec![] };
    let meta = BrokerConfig::into(&cfg);
    assert_eq!(meta.node_id, 3);
    assert_eq!(meta.host, "localhost");
    assert_eq!(meta.port, 9092);
}
