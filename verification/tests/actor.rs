use bytes::Bytes;
use memmap::MmapMut;
use rafka::partition::actor::{PartitionActor, PartitionActorConfig};
use rafka::partition::config::PartitionConfig;
use rafka::partition::state::PartitionState;
use rafka::protocol::produce::{Acks, ProducePartitionResponse};
use rafka::replica::ReplicaMetadata;
use rafka::segment::config::SegmentConfig;
use rafka::segment::log_segment::LogSegment;
use rafka::protocol::fetch::{FetchPartition, PartitionResponse};
use rafka::storage::record::Record;
use rafka::storage::record_batch::RecordBatch;

struct Harness {
    actor: PartitionActor,
    logs: Vec<Vec<u8>>,
    indexes: Vec<Vec<u8>>,
}

fn open_segment(base_offset: u64, segment_bytes: usize) -> LogSegment {
    let cfg = SegmentConfig::new(String::from("rafka-actor-test"), base_offset, segment_bytes);
    let n = cfg.index_file_size();
    LogSegment::open(&cfg, 0, MmapMut::map_anon(n).unwrap(), MmapMut::map_anon(n).unwrap())
}

fn spawn_actor(replicas: Vec<ReplicaMetadata>, segment_bytes: usize) -> Harness {
    let state = PartitionState::new(replicas);
    let config = PartitionActorConfig {
        base_dir: String::from("rafka-actor-test"),
        segment_bytes,
        broker_id: 1,
        partition_id: 0,
    };
    let active = open_segment(0, segment_bytes);
    Harness { actor: PartitionActor::new(state, config, active), logs: vec![Vec::new()], indexes: vec![Vec::new()] }
}

fn make_batch(base_offset: u64, records_count: u32, payload: &[u8]) -> RecordBatch {
    RecordBatch {
        base_offset,
        batch_length: 4 + payload.len() as u32,
        records_count,
        records: Bytes::copy_from_slice(payload),
    }
}

fn append(h: &mut Harness, mut batch: RecordBatch, acks: Acks) -> Option<ProducePartitionResponse> {
    h.actor.assign_base_offset(&mut batch);
    let log = h.logs.last_mut().unwrap();
    let log_pos = log.len() as u64;
    log.extend_from_slice(&batch.encode_header());
    log.extend_from_slice(&batch.records);
    let outcome = h.actor.record_append(&batch, acks, log_pos);
    *h.indexes.last_mut().unwrap() = h.actor.active.index_file[..].to_vec();
    if let Some(base_offset) = outcome.roll_at {
        h.actor.roll(open_segment(base_offset, h.actor.segment_bytes));
        h.logs.push(Vec::new());
        h.indexes.push(h.actor.active.index_file[..].to_vec());
    }
    outcome.response
}

fn fetch(h: &Harness, offset: u64) -> PartitionResponse {
    let state = &h.actor.state;
    let idx = state.segment_index(offset);
    let req = FetchPartition { partition: 0, fetch_offset: offset, partition_max_bytes: 1 << 20, high_watermark: 0 };
    state.fetch(0, req, &h.logs[idx], &h.indexes[idx])
}

fn record_batch(records: &[(&[u8], &[u8])]) -> RecordBatch {
    let mut encoded = Vec::new();
    for (i, (key, val)) in records.iter().enumerate() {
        encoded.extend(Record::new(i as u64, key, val).encode());
    }
    RecordBatch {
        base_offset: 0,
        batch_length: 4 + encoded.len() as u32,
        records_count: records.len() as u32,
        records: Bytes::from(encoded),
    }
}

#[test]
fn high_watermark_advances_by_records_count_not_one() {
    let mut h = spawn_actor(vec![], 1 << 20);
    append(&mut h, make_batch(0, 5, b"aaaaa"), Acks::Leader);
    assert_eq!(h.actor.state.high_watermark, 5, "hw must equal records_count (5), not 1");
    assert_eq!(h.actor.state.log_end_offset, 5);
}

#[test]
fn leo_accumulates_across_multiple_appends() {
    let mut h = spawn_actor(vec![], 1 << 20);
    append(&mut h, make_batch(0, 3, b"aaa"), Acks::Leader);
    append(&mut h, make_batch(3, 2, b"bb"), Acks::Leader);
    assert_eq!(h.actor.state.log_end_offset, 5);
    assert_eq!(h.actor.state.high_watermark, 5);
}

#[test]
fn acks_none_responds_immediately() {
    let mut h = spawn_actor(vec![], 1 << 20);
    let resp = append(&mut h, make_batch(0, 1, b"x"), Acks::NoAcks).unwrap();
    assert_eq!(resp.index, 0);
    assert_eq!(resp.base_offset, 0);
}

#[test]
fn acks_leader_responds_with_correct_base_offset() {
    let mut h = spawn_actor(vec![], 1 << 20);
    let r1 = append(&mut h, make_batch(0, 2, b"ab"), Acks::Leader).unwrap();
    assert_eq!(r1.base_offset, 0);
    let r2 = append(&mut h, make_batch(2, 3, b"cde"), Acks::Leader).unwrap();
    assert_eq!(r2.base_offset, 2);
    assert_eq!(r2.current_leader.unwrap().leader_id, 1);
}

#[test]
fn segment_rotates_and_state_has_two_segments() {
    // segment_bytes=1 rolls the segment after every batch
    let mut h = spawn_actor(vec![], 1);
    append(&mut h, make_batch(0, 1, b"x"), Acks::Leader);
    append(&mut h, make_batch(1, 1, b"y"), Acks::Leader);
    let segments = &h.actor.state.segments;
    assert!(segments.len() >= 2, "expected >=2 segments after rotation, got {}", segments.len());
    assert_eq!(segments.len(), 3);
    assert_eq!(segments[0].base_offset, 0);
    assert_eq!(segments[1].base_offset, 1);
    assert_eq!(segments[2].base_offset, 2);
    assert_eq!(segments[0].size, 17);
    assert_eq!(segments[2].size, 0);
}

#[test]
fn acks_all_waits_for_replica_ack() {
    let replica = ReplicaMetadata::empty("broker-2".to_string(), 42);
    let mut h = spawn_actor(vec![replica], 1 << 20);

    let resp = append(&mut h, make_batch(0, 1, b"z"), Acks::All);
    assert!(resp.is_none());
    assert_eq!(h.actor.state.high_watermark, 0, "hw must not advance until replica acks");

    let answered = h.actor.update_replica_leo(42, 1);
    assert_eq!(h.actor.state.high_watermark, 1);
    assert_eq!(answered.len(), 1);
    assert_eq!(answered[0].base_offset, 0);
}

#[test]
fn acks_all_flushes_in_fifo_order() {
    let replica = ReplicaMetadata::empty("broker-2".to_string(), 99);
    let mut h = spawn_actor(vec![replica], 1 << 20);

    assert!(append(&mut h, make_batch(0, 1, b"a"), Acks::All).is_none());
    assert!(append(&mut h, make_batch(1, 1, b"b"), Acks::All).is_none());

    let answered = h.actor.update_replica_leo(99, 2);
    assert_eq!(answered.len(), 2);
    assert_eq!(answered[0].base_offset, 0);
    assert_eq!(answered[1].base_offset, 1);
    assert!(h.actor.acks_pending_replication.is_empty());
}

#[test]
fn partial_replica_ack_answers_only_covered_producers() {
    let replica = ReplicaMetadata::empty("broker-2".to_string(), 7);
    let mut h = spawn_actor(vec![replica], 1 << 20);
    append(&mut h, make_batch(0, 2, b"ab"), Acks::All);
    append(&mut h, make_batch(2, 2, b"cd"), Acks::All);

    let answered = h.actor.update_replica_leo(7, 3);
    assert_eq!(answered.len(), 1);
    assert_eq!(answered[0].base_offset, 0);
    assert_eq!(h.actor.acks_pending_replication.len(), 1);
    assert_eq!(h.actor.acks_pending_replication[0].hw, 4);

    let answered = h.actor.update_replica_leo(7, 4);
    assert_eq!(answered.len(), 1);
    assert_eq!(answered[0].base_offset, 2);
}

#[test]
fn new_actor_publishes_the_active_segment() {
    let h = spawn_actor(vec![], 1 << 20);
    assert_eq!(h.actor.state.segments.len(), 1);
    assert_eq!(h.actor.state.segments[0].base_offset, 0);
    assert_eq!(h.actor.state.log_end_offset, 0);
}

#[test]
fn appended_batch_gets_the_log_end_offset() {
    let mut h = spawn_actor(vec![], 1 << 20);
    append(&mut h, make_batch(0, 4, b"abcd"), Acks::Leader);
    let mut batch = make_batch(99, 1, b"e");
    h.actor.assign_base_offset(&mut batch);
    assert_eq!(batch.base_offset, 4);
}

#[test]
fn actor_config_puts_partition_under_base_dir() {
    let cfg = PartitionConfig::new(3, 1, String::from("/data"), String::from("orders"));
    let actor_cfg = PartitionActorConfig::from(cfg);
    assert_eq!(actor_cfg.base_dir, "/data/orders-3");
    assert_eq!(actor_cfg.segment_bytes, 1 << 20);
    assert_eq!(actor_cfg.broker_id, 1);
    assert_eq!(actor_cfg.partition_id, 3);

    let cfg = PartitionConfig::new(12, 1, String::from("/data/"), String::from("t"));
    assert_eq!(PartitionActorConfig::from(cfg).base_dir, "/data/t-12");

    let cfg = PartitionConfig::new(0, 1, String::new(), String::from("t"));
    assert_eq!(PartitionActorConfig::from(cfg).base_dir, "t-0");

    let cfg = PartitionConfig::new(5, 1, String::from("/data"), String::from("/abs"));
    assert_eq!(PartitionActorConfig::from(cfg).base_dir, "/abs-5");
}

#[test]
fn partition_config_defaults() {
    assert_eq!(PartitionConfig::default_segment_bytes(), 1 << 20);
    assert_eq!(PartitionConfig::default_channel_size(), 1 << 16);
}

#[test]
fn appended_records_fetch_back_through_the_state() {
    let mut h = spawn_actor(vec![], 1 << 20);
    let resp = append(&mut h, record_batch(&[(b"key1", b"value1"), (b"key2", b"value2")]), Acks::Leader).unwrap();
    assert_eq!(resp.base_offset, 0);
    assert_eq!(h.actor.state.log_end_offset, 2);
    assert_eq!(h.actor.state.high_watermark, 2);

    let fetched = fetch(&h, 0);
    let total: u32 = fetched.records.iter().map(|b| b.records_count).sum();
    assert_eq!(total, 2);
    let (r0, consumed) = Record::decode_raw(&fetched.records[0].records).unwrap();
    assert_eq!(r0.key, b"key1");
    assert_eq!(r0.value, b"value1");
    let (r1, _) = Record::decode_raw(&fetched.records[0].records[consumed..]).unwrap();
    assert_eq!(r1.key, b"key2");
    assert_eq!(r1.value, b"value2");
}

#[test]
fn second_batch_fetches_from_its_offset() {
    let mut h = spawn_actor(vec![], 1 << 20);
    append(&mut h, record_batch(&[(b"a", b"1")]), Acks::Leader);
    append(&mut h, record_batch(&[(b"b", b"2")]), Acks::Leader);
    assert_eq!(h.actor.state.log_end_offset, 2);

    let fetched = fetch(&h, 1);
    let (r, _) = Record::decode_raw(&fetched.records[0].records).unwrap();
    assert_eq!(r.key, b"b");
    assert_eq!(r.value, b"2");
}

#[test]
fn rolled_segments_are_both_fetchable() {
    let mut h = spawn_actor(vec![], 1);
    append(&mut h, record_batch(&[(b"k0", b"v0")]), Acks::Leader);
    append(&mut h, record_batch(&[(b"k1", b"v1")]), Acks::Leader);
    assert!(h.actor.state.segments.len() >= 2);

    let r0 = fetch(&h, 0);
    let (rec, _) = Record::decode_raw(&r0.records[0].records).unwrap();
    assert_eq!(rec.key, b"k0");

    let r1 = fetch(&h, 1);
    let (rec, _) = Record::decode_raw(&r1.records[0].records).unwrap();
    assert_eq!(rec.key, b"k1");
}
