use bytes::Bytes;

use rafka::protocol::body::FrameBody;
use rafka::protocol::header::{ApiKey, RequestHeader};
use rafka::protocol::produce::{Acks, ProducePartition, ProduceRequest, ProduceTopic};
use rafka::protocol::Frame;
use rafka::storage::record::Record;
use rafka::storage::record_batch::RecordBatch;

fn make_batch(base_offset: u64, records: &[(&[u8], &[u8])]) -> RecordBatch {
    let mut encoded = Vec::new();
    for (i, (k, v)) in records.iter().enumerate() {
        encoded.extend(Record::new(i as u64, k, v).encode());
    }
    RecordBatch {
        base_offset,
        batch_length: 4 + encoded.len() as u32,
        records_count: records.len() as u32,
        records: Bytes::from(encoded),
    }
}

fn make_header(api_key: ApiKey, correlation_id: u32, client_id: Option<&str>) -> RequestHeader {
    RequestHeader {
        api_key,
        api_version: 0,
        correlation_id,
        client_id: client_id.map(|s| s.to_string()),
    }
}

fn produce_frame(
    correlation_id: u32,
    client_id: Option<&str>,
    acks: Acks,
    timeout_ms: u64,
    topics: Vec<ProduceTopic>,
) -> Frame {
    Frame {
        size: 0,
        header: make_header(ApiKey::Produce, correlation_id, client_id),
        body: FrameBody::Produce(ProduceRequest {
            transactional_id: 0,
            acks,
            timeout_ms,
            topics,
        }),
    }
}

fn roundtrip(frame: Frame) -> Frame {
    let encoded = frame.encode();
    Frame::decode(encoded).unwrap()
}

#[test]
fn encode_decode_correlation_id() {
    let batch = make_batch(0, &[]);
    let frame = produce_frame(77, None, Acks::NoAcks, 0, vec![
        ProduceTopic { topic: "t".into(), partitions: vec![ProducePartition { index: 0, records: batch }] },
    ]);
    let decoded = roundtrip(frame);
    assert_eq!(decoded.header.correlation_id, 77);
}

#[test]
fn encode_decode_client_id_some() {
    let batch = make_batch(0, &[]);
    let frame = produce_frame(1, Some("my-client"), Acks::NoAcks, 0, vec![
        ProduceTopic { topic: "t".into(), partitions: vec![ProducePartition { index: 0, records: batch }] },
    ]);
    let decoded = roundtrip(frame);
    assert_eq!(decoded.header.client_id.as_deref(), Some("my-client"));
}

#[test]
fn encode_decode_client_id_none() {
    let batch = make_batch(0, &[]);
    let frame = produce_frame(1, None, Acks::NoAcks, 0, vec![
        ProduceTopic { topic: "t".into(), partitions: vec![ProducePartition { index: 0, records: batch }] },
    ]);
    let decoded = roundtrip(frame);
    assert_eq!(decoded.header.client_id, None);
}

#[test]
fn encode_decode_api_key() {
    let batch = make_batch(0, &[]);
    let frame = produce_frame(1, None, Acks::NoAcks, 0, vec![
        ProduceTopic { topic: "t".into(), partitions: vec![ProducePartition { index: 0, records: batch }] },
    ]);
    let decoded = roundtrip(frame);
    assert_eq!(decoded.header.api_key, ApiKey::Produce);
}

#[test]
fn encode_decode_acks_none() {
    let batch = make_batch(0, &[]);
    let frame = produce_frame(1, None, Acks::NoAcks, 0, vec![
        ProduceTopic { topic: "t".into(), partitions: vec![ProducePartition { index: 0, records: batch }] },
    ]);
    let decoded = roundtrip(frame);
    match decoded.body {
        FrameBody::Produce(r) => assert_eq!(r.acks, Acks::NoAcks),
        _ => panic!(),
    }
}

#[test]
fn encode_decode_acks_leader() {
    let batch = make_batch(0, &[]);
    let frame = produce_frame(1, None, Acks::Leader, 0, vec![
        ProduceTopic { topic: "t".into(), partitions: vec![ProducePartition { index: 0, records: batch }] },
    ]);
    let decoded = roundtrip(frame);
    match decoded.body {
        FrameBody::Produce(r) => assert_eq!(r.acks, Acks::Leader),
        _ => panic!(),
    }
}

#[test]
fn encode_decode_acks_all() {
    let batch = make_batch(0, &[]);
    let frame = produce_frame(1, None, Acks::All, 0, vec![
        ProduceTopic { topic: "t".into(), partitions: vec![ProducePartition { index: 0, records: batch }] },
    ]);
    let decoded = roundtrip(frame);
    match decoded.body {
        FrameBody::Produce(r) => assert_eq!(r.acks, Acks::All),
        _ => panic!(),
    }
}

#[test]
fn encode_decode_timeout_millis() {
    let batch = make_batch(0, &[]);
    let frame = produce_frame(1, None, Acks::NoAcks, 5500, vec![
        ProduceTopic { topic: "t".into(), partitions: vec![ProducePartition { index: 0, records: batch }] },
    ]);
    let decoded = roundtrip(frame);
    match decoded.body {
        FrameBody::Produce(r) => assert_eq!(r.timeout_ms, 5500),
        _ => panic!(),
    }
}

#[test]
fn encode_decode_topic_name() {
    let batch = make_batch(0, &[]);
    let frame = produce_frame(1, None, Acks::NoAcks, 0, vec![
        ProduceTopic { topic: "orders".into(), partitions: vec![ProducePartition { index: 0, records: batch }] },
    ]);
    let decoded = roundtrip(frame);
    match decoded.body {
        FrameBody::Produce(r) => assert_eq!(r.topics[0].topic, "orders"),
        _ => panic!(),
    }
}

#[test]
fn encode_decode_partition_index() {
    let batch = make_batch(0, &[]);
    let frame = produce_frame(1, None, Acks::NoAcks, 0, vec![
        ProduceTopic { topic: "t".into(), partitions: vec![ProducePartition { index: 7, records: batch }] },
    ]);
    let decoded = roundtrip(frame);
    match decoded.body {
        FrameBody::Produce(r) => assert_eq!(r.topics[0].partitions[0].index, 7),
        _ => panic!(),
    }
}

#[test]
fn encode_decode_batch_fields() {
    let batch = make_batch(42, &[(b"key", b"val")]);
    let frame = produce_frame(1, None, Acks::NoAcks, 0, vec![
        ProduceTopic { topic: "t".into(), partitions: vec![ProducePartition { index: 0, records: batch }] },
    ]);
    let decoded = roundtrip(frame);
    match decoded.body {
        FrameBody::Produce(r) => {
            let b = &r.topics[0].partitions[0].records;
            assert_eq!(b.base_offset, 42);
            assert_eq!(b.records_count, 1);
            let (rec, _) = Record::decode_raw(&b.records).unwrap();
            assert_eq!(rec.key, b"key");
            assert_eq!(rec.value, b"val");
        }
        _ => panic!(),
    }
}

#[test]
fn encode_decode_multiple_records_in_batch() {
    let batch = make_batch(0, &[(b"k0", b"v0"), (b"k1", b"v1"), (b"k2", b"v2")]);
    let frame = produce_frame(1, None, Acks::NoAcks, 0, vec![
        ProduceTopic { topic: "t".into(), partitions: vec![ProducePartition { index: 0, records: batch }] },
    ]);
    let decoded = roundtrip(frame);
    match decoded.body {
        FrameBody::Produce(r) => {
            let b = &r.topics[0].partitions[0].records;
            assert_eq!(b.records_count, 3);
            let mut pos = 0;
            for expected_key in [b"k0".as_ref(), b"k1", b"k2"] {
                let (rec, consumed) = Record::decode_raw(&b.records[pos..]).unwrap();
                assert_eq!(rec.key, expected_key);
                pos += consumed;
            }
        }
        _ => panic!(),
    }
}

#[test]
fn encode_decode_multiple_partitions() {
    let b0 = make_batch(0, &[(b"p0-key", b"p0-val")]);
    let b1 = make_batch(0, &[(b"p1-key", b"p1-val")]);
    let frame = produce_frame(1, None, Acks::NoAcks, 0, vec![
        ProduceTopic {
            topic: "t".into(),
            partitions: vec![
                ProducePartition { index: 0, records: b0 },
                ProducePartition { index: 1, records: b1 },
            ],
        },
    ]);
    let decoded = roundtrip(frame);
    match decoded.body {
        FrameBody::Produce(r) => {
            let parts = &r.topics[0].partitions;
            assert_eq!(parts.len(), 2);
            let (r0, _) = Record::decode_raw(&parts[0].records.records).unwrap();
            assert_eq!(r0.key, b"p0-key");
            let (r1, _) = Record::decode_raw(&parts[1].records.records).unwrap();
            assert_eq!(r1.key, b"p1-key");
        }
        _ => panic!(),
    }
}

#[test]
fn encode_decode_multiple_topics() {
    let b0 = make_batch(0, &[(b"ka", b"va")]);
    let b1 = make_batch(0, &[(b"kb", b"vb")]);
    let frame = produce_frame(1, None, Acks::NoAcks, 0, vec![
        ProduceTopic { topic: "topic-a".into(), partitions: vec![ProducePartition { index: 0, records: b0 }] },
        ProduceTopic { topic: "topic-b".into(), partitions: vec![ProducePartition { index: 0, records: b1 }] },
    ]);
    let decoded = roundtrip(frame);
    match decoded.body {
        FrameBody::Produce(r) => {
            assert_eq!(r.topics.len(), 2);
            assert_eq!(r.topics[0].topic, "topic-a");
            assert_eq!(r.topics[1].topic, "topic-b");
            let (r0, _) = Record::decode_raw(&r.topics[0].partitions[0].records.records).unwrap();
            assert_eq!(r0.key, b"ka");
            let (r1, _) = Record::decode_raw(&r.topics[1].partitions[0].records.records).unwrap();
            assert_eq!(r1.key, b"kb");
        }
        _ => panic!(),
    }
}

#[test]
fn encode_size_field_matches_payload() {
    let batch = make_batch(0, &[(b"k", b"v")]);
    let frame = produce_frame(1, Some("c"), Acks::NoAcks, 0, vec![
        ProduceTopic { topic: "t".into(), partitions: vec![ProducePartition { index: 0, records: batch }] },
    ]);
    let encoded = frame.encode();
    let declared_size = u32::from_be_bytes(encoded[0..4].try_into().unwrap());
    assert_eq!(declared_size as usize, encoded.len() - 4);
}

#[test]
fn encoded_length_matches_header_and_body_sizes() {
    let batch = make_batch(3, &[(b"key", b"value")]);
    let frame = produce_frame(9, Some("client-1"), Acks::All, 250, vec![
        ProduceTopic { topic: "orders".into(), partitions: vec![ProducePartition { index: 2, records: batch }] },
    ]);
    let encoded = frame.encode();
    let expected = 4 + frame.header.get_size() + frame.body.get_size();
    assert_eq!(encoded.len(), expected as usize);
}

#[test]
fn encoded_header_layout() {
    let frame = produce_frame(0x01020304, None, Acks::Leader, 0x10, vec![]);
    let encoded = frame.encode();
    assert_eq!(&encoded[4..8], &[0, 0, 0, 0]);
    assert_eq!(&encoded[12..16], &[1, 2, 3, 4]);
    assert_eq!(&encoded[16..18], &[0xFF, 0xFF]);
    // transactional id 8, acks 4, timeout 8, topic count 2
    assert_eq!(&encoded[26..30], &[0, 0, 0, 1]);
    assert_eq!(&encoded[30..38], &[0, 0, 0, 0, 0, 0, 0, 0x10]);
    assert_eq!(&encoded[38..40], &[0, 0]);
    assert_eq!(encoded.len(), 40);
}
