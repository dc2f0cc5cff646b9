use bytes::Bytes;
use memmap::MmapMut;
use rafka::partition::state::PartitionState;
use rafka::protocol::error_codes::ErrorCode;
use rafka::protocol::fetch::{FetchPartition, PartitionResponse};
use rafka::replica::ReplicaMetadata;
use rafka::segment::config::SegmentConfig;
use rafka::segment::log_segment::LogSegment;
use rafka::storage::record::Record;
use rafka::storage::record_batch::RecordBatch;

struct Files {
    log: Vec<u8>,
    index: MmapMut,
}

fn make_seg(base_offset: u64) -> (LogSegment, Vec<u8>) {
    let cfg = SegmentConfig { base_dir: String::from("state-test"), base_offset, segment_bytes: 1 << 20, index_interval_bytes: 1 };
    let n = cfg.index_file_size();
    (LogSegment::open(&cfg, 0, MmapMut::map_anon(n).unwrap(), MmapMut::map_anon(n).unwrap()), Vec::new())
}

fn append(seg: &mut LogSegment, log: &mut Vec<u8>, batch: &RecordBatch) {
    let log_pos = log.len() as u64;
    log.extend_from_slice(&batch.encode_header());
    log.extend_from_slice(&batch.records);
    seg.append_batch(batch, log_pos);
}

fn single_record_batch(base_offset: u64, key: &[u8], val: &[u8]) -> RecordBatch {
    let encoded = Record::new(0, key, val).encode();
    RecordBatch { base_offset, batch_length: 4 + encoded.len() as u32, records_count: 1, records: Bytes::from(encoded) }
}

fn multi_record_batch(base_offset: u64, count: u64) -> RecordBatch {
    let mut payload = Vec::new();
    for i in 0..count {
        payload.extend(Record::new(i, format!("k{}", i).as_bytes(), b"v").encode());
    }
    RecordBatch { base_offset, batch_length: 4 + payload.len() as u32, records_count: count as u32, records: Bytes::from(payload) }
}

fn fetch_req(offset: u64) -> FetchPartition {
    FetchPartition { partition: 0, fetch_offset: offset, partition_max_bytes: 1 << 20, high_watermark: 0 }
}

fn segment_with(base_offset: u64, batch: &RecordBatch) -> (rafka::segment::metadata::SegmentView, Files) {
    let (mut seg, mut log) = make_seg(base_offset);
    append(&mut seg, &mut log, batch);
    let view = seg.publish();
    (view, Files { log, index: seg.index_file })
}

// Build a state with N segments containing one batch each at their base_offset.
// Each segment's key is unique: "seg-<base_offset>".
fn build_state(base_offsets: &[u64]) -> (PartitionState, Vec<Files>) {
    let mut views = Vec::new();
    let mut files = Vec::new();
    for base_offset in base_offsets {
        let key = format!("seg-{}", base_offset);
        let (view, f) = segment_with(*base_offset, &single_record_batch(*base_offset, key.as_bytes(), b"val"));
        views.push(view);
        files.push(f);
    }
    let hw = base_offsets.last().map(|o| o + 1).unwrap_or(0);
    (PartitionState::with_segments(views, hw), files)
}

fn fetch(state: &PartitionState, files: &[Files], partition_index: u32, req: FetchPartition) -> PartitionResponse {
    let idx = state.segment_index(req.fetch_offset);
    state.fetch(partition_index, req, &files[idx].log, &files[idx].index[..])
}

fn first_key(resp: &PartitionResponse) -> Vec<u8> {
    let (rec, _) = Record::decode_raw(&resp.records[0].records).unwrap();
    rec.key
}

// --- single segment ---

#[test]
fn fetch_single_segment_at_offset_zero() {
    let (state, files) = build_state(&[0]);
    let resp = fetch(&state, &files, 0, fetch_req(0));
    assert!(!resp.records.is_empty(), "must return records");
    assert_eq!(first_key(&resp), b"seg-0");
}

// --- two segments: binary search picks the right one ---

#[test]
fn fetch_two_segments_selects_first_segment() {
    let (state, files) = build_state(&[0, 10]);
    let resp = fetch(&state, &files, 0, fetch_req(0));
    assert!(!resp.records.is_empty());
    assert_eq!(first_key(&resp), b"seg-0");
}

#[test]
fn fetch_two_segments_selects_second_segment() {
    let (state, files) = build_state(&[0, 10]);
    let resp = fetch(&state, &files, 0, fetch_req(10));
    assert!(!resp.records.is_empty());
    assert_eq!(first_key(&resp), b"seg-10");
}

#[test]
fn fetch_offset_inside_first_segment_range() {
    let (view0, files0) = segment_with(0, &multi_record_batch(0, 10));
    let (view1, files1) = segment_with(10, &single_record_batch(10, b"seg-10", b"val"));
    let state = PartitionState::with_segments(vec![view0, view1], 11);
    let files = vec![files0, files1];

    // offset 5 → partition point 1 (seg1.base_offset=10 > 5) → seg0
    assert_eq!(state.segment_index(5), 0);
    let resp = fetch(&state, &files, 0, fetch_req(5));
    assert!(!resp.records.is_empty());
}

// --- three segments: binary search on middle ---

#[test]
fn fetch_three_segments_selects_first() {
    let (state, files) = build_state(&[0, 100, 200]);
    let resp = fetch(&state, &files, 0, fetch_req(0));
    assert_eq!(first_key(&resp), b"seg-0");
}

#[test]
fn fetch_three_segments_selects_middle() {
    let (state, files) = build_state(&[0, 100, 200]);
    let resp = fetch(&state, &files, 0, fetch_req(100));
    assert_eq!(first_key(&resp), b"seg-100");
}

#[test]
fn fetch_three_segments_selects_last() {
    let (state, files) = build_state(&[0, 100, 200]);
    let resp = fetch(&state, &files, 0, fetch_req(200));
    assert_eq!(first_key(&resp), b"seg-200");
}

#[test]
fn fetch_offset_between_second_and_third_selects_second() {
    let (view0, files0) = segment_with(0, &single_record_batch(0, b"seg-0", b"val"));
    let (view1, files1) = segment_with(100, &multi_record_batch(100, 100));
    let (view2, files2) = segment_with(200, &single_record_batch(200, b"seg-200", b"val"));
    let state = PartitionState::with_segments(vec![view0, view1, view2], 201);
    let files = vec![files0, files1, files2];

    // offset 150 → partition point 2 (seg2.base_offset=200 > 150) → seg1
    assert_eq!(state.segment_index(150), 1);
    let resp = fetch(&state, &files, 0, fetch_req(150));
    assert!(!resp.records.is_empty());
}

// --- response metadata ---

#[test]
fn fetch_response_carries_high_watermark() {
    let (state, files) = build_state(&[0]);
    let resp = fetch(&state, &files, 0, fetch_req(0));
    assert_eq!(resp.high_watermark, state.high_watermark);
}

#[test]
fn fetch_response_carries_partition_index() {
    let (state, files) = build_state(&[0]);
    let resp = fetch(&state, &files, 42, fetch_req(0));
    assert_eq!(resp.partition_index, 42);
}

#[test]
fn fetch_response_error_code_is_none() {
    let (state, files) = build_state(&[0]);
    let resp = fetch(&state, &files, 0, fetch_req(0));
    assert_eq!(resp.error_code, ErrorCode::NoError);
}

// --- the rest of the state ---

#[test]
fn fetch_all_reads_every_segment_in_order() {
    let (state, files) = build_state(&[0, 10, 20]);
    let logs: Vec<Vec<u8>> = files.iter().map(|f| f.log.clone()).collect();
    let resp = state.fetch_all(&logs);
    assert_eq!(resp.records.len(), 3);
    assert_eq!(resp.records[0].base_offset, 0);
    assert_eq!(resp.records[1].base_offset, 10);
    assert_eq!(resp.records[2].base_offset, 20);
    assert_eq!(resp.partition_index, 0);
    assert_eq!(resp.high_watermark, 0);
}

#[test]
fn ack_replica_takes_the_least_replica_offset() {
    let replicas = vec![
        ReplicaMetadata::empty(String::from("broker-2"), 2),
        ReplicaMetadata::empty(String::from("broker-3"), 3),
    ];
    let state = PartitionState::new(replicas);
    let state = state.ack_replica(2, 7);
    assert_eq!(state.replicas[0].log_end_offset, 7);
    assert_eq!(state.high_watermark, 0);
    let state = state.ack_replica(3, 5);
    assert_eq!(state.high_watermark, 5);
    // an older acknowledgement does not move a replica back
    let state = state.ack_replica(2, 1);
    assert_eq!(state.replicas[0].log_end_offset, 7);
    assert_eq!(state.high_watermark, 5);
}

#[test]
fn ack_replica_without_replicas_keeps_high_watermark() {
    let state = PartitionState::with_segments(Vec::new(), 9);
    let state = state.ack_replica(1, 100);
    assert_eq!(state.high_watermark, 9);
}

#[test]
fn ack_unknown_replica_changes_no_offset() {
    let state = PartitionState::new(vec![ReplicaMetadata::empty(String::from("b"), 4)]);
    let state = state.ack_replica(9, 50);
    assert_eq!(state.replicas[0].log_end_offset, 0);
    assert_eq!(state.high_watermark, 0);
}

#[test]
fn consume_keeps_replicas() {
    let state = PartitionState::new(vec![ReplicaMetadata::empty(String::from("b"), 4)]);
    let state = state.consume(Vec::new(), 3, 2);
    assert_eq!(state.log_end_offset, 3);
    assert_eq!(state.high_watermark, 2);
    assert_eq!(state.replicas.len(), 1);
}

#[test]
fn fetch_checked_without_a_segment_for_the_offset_is_none() {
    let state = PartitionState::with_segments(Vec::new(), 0);
    assert!(state.fetch_checked(0, fetch_req(0), &[], &[]).is_none());
    let (state, files) = build_state(&[10]);
    assert!(state.fetch_checked(0, fetch_req(5), &files[0].log, &files[0].index[..]).is_none());
    assert!(state.fetch_checked(0, fetch_req(10), &files[0].log, &files[0].index[..]).is_some());
}
