use bytes::{BufMut, Bytes, BytesMut};

use rafka::message::ack::Ack;
use rafka::message::body::{MessageBody, ProduceRequest};
use rafka::message::header::{MessageApiKey, MessageHeader};
use rafka::message::parser::{MessageParser, ParseError};
use rafka::message::Message;
use rafka::message::produce::{ProducePartition, ProduceTopic};

fn produce_message_bytes() -> Bytes {
    produce_message_bytes_with_timeout(5000)
}

fn produce_message_bytes_with_timeout(timeout_ms: u64) -> Bytes {
    let mut buf = BytesMut::new();

    // size
    buf.put_u32(0); // placeholder

    // header
    buf.put_u32(0); // api key
    buf.put_u32(0); // version
    buf.put_u32(42); // correlation id

    let client = b"client";
    buf.put_u16(client.len() as u16);
    buf.extend_from_slice(client);

    // produce body
    buf.put_u64(123); // transactional id
    buf.put_u32(1); // acks
    buf.put_u64(timeout_ms); // timeout

    // topics
    buf.put_u16(1);

    let topic = b"orders";
    buf.put_u16(topic.len() as u16);
    buf.extend_from_slice(topic);

    // partitions
    buf.put_u32(1);

    buf.put_u16(3); // partition id

    let batch = b"hello";
    buf.put_u32(batch.len() as u32);
    buf.extend_from_slice(batch);

    // update size
    let size = (buf.len() - 4) as u32;
    buf[..4].copy_from_slice(&size.to_be_bytes());

    buf.freeze()
}

#[test]
fn parses_full_message() {
    let bytes = produce_message_bytes();
    let mut parser = MessageParser;
    let message = parser.parse(bytes).unwrap();

    assert_eq!(message.size, 65);
    assert_eq!(message.header.api_key, MessageApiKey::Produce);
    assert_eq!(message.header.api_version, 0);
    assert_eq!(message.header.correlation_id, 42);
    assert_eq!(message.header.client_id.as_deref(), Some("client"));

    match message.body {
        MessageBody::Produce(ProduceRequest {
            transactional_id,
            acks,
            timeout_ms: _,
            topics,
        }) => {
            assert_eq!(transactional_id, 123);
            assert_eq!(acks, Ack::Leader);
            assert_eq!(topics.len(), 1);
            assert_eq!(topics[0].topic, "orders");
            assert_eq!(topics[0].partitions.len(), 1);
            assert_eq!(topics[0].partitions[0].partition_id, 3);
            assert_eq!(topics[0].partitions[0].batch.as_ref(), b"hello");
        }
        _ => panic!("expected produce message"),
    }
}

#[test]
fn message_decode_rejects_unknown_api_key() {
    let mut buf = BytesMut::new();
    buf.put_u32(0);
    buf.put_u32(7);
    buf.put_u32(0);
    buf.put_u32(0);
    buf.put_i16(-1);
    assert!(matches!(Message::decode(buf.freeze()), Err(ParseError::InvalidApiKey)));
}

#[test]
fn message_parse_checked_refuses_fetch() {
    let mut buf = BytesMut::new();
    buf.put_u32(0);
    buf.put_u32(1);
    buf.put_u32(0);
    buf.put_u32(0);
    buf.put_i16(-1);
    let mut parser = MessageParser;
    assert!(parser.parse_checked(&buf.freeze()).is_none());
}

#[test]
fn message_encode_without_client_id_or_topics() {
    let message = Message {
        size: 9,
        header: MessageHeader {
            api_key: MessageApiKey::Produce,
            api_version: 2,
            correlation_id: 3,
            client_id: None,
        },
        body: MessageBody::Produce(ProduceRequest {
            transactional_id: 4,
            acks: Ack::All,
            timeout_ms: 5999,
            topics: vec![],
        }),
    };
    let bytes = message.encode();
    let mut expected = Vec::new();
    expected.extend_from_slice(&9u32.to_be_bytes());
    expected.extend_from_slice(&0u32.to_be_bytes());
    expected.extend_from_slice(&2u32.to_be_bytes());
    expected.extend_from_slice(&3u32.to_be_bytes());
    expected.extend_from_slice(&(-1i16).to_be_bytes());
    expected.extend_from_slice(&4u64.to_be_bytes());
    expected.extend_from_slice(&2u32.to_be_bytes());
    expected.extend_from_slice(&5999u64.to_be_bytes());
    expected.extend_from_slice(&0u16.to_be_bytes());
    assert_eq!(bytes.as_ref(), expected.as_slice());
}

#[test]
fn message_encode_then_parse_gives_it_back() {
    let message = Message {
        size: 65,
        header: MessageHeader {
            api_key: MessageApiKey::Produce,
            api_version: 0,
            correlation_id: 42,
            client_id: Some(String::from("client")),
        },
        body: MessageBody::Produce(ProduceRequest {
            transactional_id: 123,
            acks: Ack::Leader,
            timeout_ms: 5500,
            topics: vec![ProduceTopic {
                topic: String::from("orders"),
                partitions: vec![ProducePartition { partition_id: 3, batch: Bytes::from_static(b"hello") }],
            }],
        }),
    };
    let bytes = message.encode();
    assert_eq!(bytes, produce_message_bytes_with_timeout(5500));
    let decoded = Message::decode_checked(&bytes).unwrap().unwrap();
    assert_eq!(decoded.size, 65);
    assert_eq!(decoded.header.client_id.as_deref(), Some("client"));
    match decoded.body {
        MessageBody::Produce(req) => {
            assert_eq!(req.timeout_ms, 5500);
            assert_eq!(req.transactional_id, 123);
            assert_eq!(req.topics[0].topic, "orders");
            assert_eq!(req.topics[0].partitions[0].partition_id, 3);
            assert_eq!(req.topics[0].partitions[0].batch.as_ref(), b"hello");
        },
        _ => panic!("expected produce message"),
    }
}

#[test]
fn message_decode_checked_knows_short_input() {
    assert!(Message::decode_checked(&Bytes::from_static(&[0, 0, 0, 1])).is_none());
}

#[test]
fn message_header_size_counts_client_id() {
    let header = MessageHeader {
        api_key: MessageApiKey::Fetch,
        api_version: 0,
        correlation_id: 0,
        client_id: Some("abc".to_string()),
    };
    assert_eq!(header.get_size(), 17);
}
