use bytes::Bytes;
use memmap::MmapMut;
use rafka::protocol::fetch::FetchPartition;
use rafka::segment::config::SegmentConfig;
use rafka::segment::log_segment::LogSegment;
use rafka::segment::metadata::{SegmentError, SegmentView};
use rafka::storage::record::Record;
use rafka::storage::record_batch::{RecordBatch, BATCH_HEADER_PREFIX};

struct TestSegment {
    seg: LogSegment,
    log: Vec<u8>,
}

fn open_seg(cfg: &SegmentConfig) -> TestSegment {
    let n = cfg.index_file_size();
    let index = MmapMut::map_anon(n).unwrap();
    let time_index = MmapMut::map_anon(n).unwrap();
    TestSegment { seg: LogSegment::open(cfg, 0, index, time_index), log: Vec::new() }
}

fn make_seg(base_offset: u64, segment_bytes: usize) -> TestSegment {
    open_seg(&SegmentConfig::new(String::from("seg-test"), base_offset, segment_bytes))
}

fn make_indexed_seg(base_offset: u64) -> TestSegment {
    open_seg(&SegmentConfig {
        base_dir: String::from("meta-test"),
        base_offset,
        segment_bytes: 1 << 20,
        index_interval_bytes: 1,
    })
}

fn append(t: &mut TestSegment, batch: &RecordBatch) {
    let log_pos = t.log.len() as u64;
    t.log.extend_from_slice(&batch.encode_header());
    t.log.extend_from_slice(&batch.records);
    t.seg.append_batch(batch, log_pos);
}

fn make_batch(base_offset: u64, records_count: u32, payload: &[u8]) -> RecordBatch {
    let records = Bytes::copy_from_slice(payload);
    let batch_length = 4 + records.len() as u32;
    RecordBatch { base_offset, batch_length, records_count, records }
}

fn single_record_batch(base_offset: u64, offset_delta: u64, key: &[u8], val: &[u8]) -> RecordBatch {
    let record = Record::new(offset_delta, key, val);
    let encoded = record.encode();
    RecordBatch {
        base_offset,
        batch_length: 4 + encoded.len() as u32,
        records_count: 1,
        records: Bytes::from(encoded),
    }
}

fn fetch_req(offset: u64, max_bytes: u32) -> FetchPartition {
    FetchPartition { partition: 0, fetch_offset: offset, partition_max_bytes: max_bytes, high_watermark: 0 }
}

fn fetch(t: &TestSegment, view: &SegmentView, req: FetchPartition) -> Vec<RecordBatch> {
    view.fetch(&t.log, &t.seg.index_file[..], req)
}

#[test]
fn size_matches_bytes_written_to_log_file() {
    let mut seg = make_seg(0, 1 << 20);

    let batch = make_batch(0, 1, b"hello");
    append(&mut seg, &batch);

    assert_eq!(seg.seg.size, BATCH_HEADER_PREFIX + batch.batch_length as usize);
    assert_eq!(seg.seg.size, seg.log.len());
}

#[test]
fn publish_reflects_current_size_and_index_count() {
    let mut seg = make_seg(0, 1 << 20);

    let batch = make_batch(0, 2, b"xy");
    append(&mut seg, &batch);
    let view = seg.seg.publish();

    assert_eq!(view.size, seg.seg.size);
    assert_eq!(view.index_count, seg.seg.index_count);
}

#[test]
fn find_physical_position_returns_none_when_no_index() {
    let mut seg = make_indexed_seg(0);
    let view = seg.seg.publish();
    let batches = fetch(&seg, &view, fetch_req(0, 1 << 20));
    assert!(batches.is_empty(), "no index => empty fetch");
    assert!(view.find_physical_position(&seg.seg.index_file[..], 0).is_none());
}

#[test]
fn fetch_returns_batch_matching_fetch_offset() {
    let mut seg = make_indexed_seg(0);

    let batch = single_record_batch(0, 0, b"key", b"value");
    append(&mut seg, &batch);
    let view = seg.seg.publish();

    let batches = fetch(&seg, &view, fetch_req(0, 1 << 20));
    assert!(!batches.is_empty());
    assert_eq!(batches[0].base_offset, 0);
}

#[test]
fn fresh_segment_is_due_for_an_index_entry() {
    let mut seg = make_indexed_seg(0);
    assert_eq!(seg.seg.index_count, 0);
    assert_eq!(seg.seg.bytes_since_last_index, 1);
    append(&mut seg, &make_batch(0, 1, b"a"));
    assert_eq!(seg.seg.index_count, 1);
    assert_eq!(seg.seg.index_write_pos, 16);
    assert_eq!(seg.seg.bytes_since_last_index, 0);
    // base offset and log position, big-endian
    assert_eq!(&seg.seg.index_file[0..16], &[0u8; 16]);
    assert_eq!(&seg.seg.time_index_file[0..16], &[0u8; 16]);
}

#[test]
fn index_entry_holds_base_offset_and_log_position() {
    let mut seg = make_indexed_seg(0);
    append(&mut seg, &make_batch(0, 1, b"a"));
    append(&mut seg, &make_batch(1, 1, b"b"));
    assert_eq!(seg.seg.index_count, 2);
    assert_eq!(&seg.seg.index_file[16..24], &1u64.to_be_bytes());
    assert_eq!(&seg.seg.index_file[24..32], &17u64.to_be_bytes());
    assert_eq!(&seg.seg.time_index_file[16..24], &1u64.to_be_bytes());
    assert_eq!(&seg.seg.time_index_file[24..32], &1u64.to_be_bytes());
}

#[test]
fn index_entries_wait_for_the_interval() {
    let mut seg = open_seg(&SegmentConfig {
        base_dir: String::new(),
        base_offset: 0,
        segment_bytes: 1024,
        index_interval_bytes: 40,
    });
    // a fresh segment writes its first entry at once
    append(&mut seg, &make_batch(0, 1, b"abcd"));
    assert_eq!(seg.seg.index_count, 1);
    // 20 bytes later: below the interval
    append(&mut seg, &make_batch(1, 1, b"abcd"));
    assert_eq!(seg.seg.index_count, 1);
    assert_eq!(seg.seg.bytes_since_last_index, 20);
    // 40 bytes since the last entry: due
    append(&mut seg, &make_batch(2, 1, b"abcd"));
    assert_eq!(seg.seg.index_count, 2);
    assert_eq!(seg.seg.bytes_since_last_index, 0);
}

#[test]
fn index_full_stops_writing_entries() {
    // room for 1024 / 1024 + 1 = 2 entries
    let mut seg = open_seg(&SegmentConfig {
        base_dir: String::new(),
        base_offset: 0,
        segment_bytes: 1024,
        index_interval_bytes: 1024,
    });
    seg.seg.bytes_since_last_index = 1024;
    append(&mut seg, &make_batch(0, 1, b"x"));
    seg.seg.bytes_since_last_index = 1024;
    append(&mut seg, &make_batch(1, 1, b"x"));
    seg.seg.bytes_since_last_index = 1024;
    append(&mut seg, &make_batch(2, 1, b"x"));
    assert_eq!(seg.seg.index_count, 2);
    assert_eq!(seg.seg.size, 3 * 17);
}

#[test]
fn reopening_counts_index_entries_up_to_first_blank() {
    let cfg = SegmentConfig { base_dir: String::new(), base_offset: 0, segment_bytes: 64, index_interval_bytes: 16 };
    let n = cfg.index_file_size();
    assert_eq!(n, 5 * 16);
    let mut index = MmapMut::map_anon(n).unwrap();
    let time_index = MmapMut::map_anon(n).unwrap();
    // entry 0 is blank but counts; entry 1 holds data; entry 2 is blank
    index[16] = 7;
    let seg = LogSegment::open(&cfg, 100, index, time_index);
    assert_eq!(seg.index_count, 2);
    assert_eq!(seg.index_write_pos, 32);
    assert_eq!(seg.size, 100);
    assert_eq!(seg.bytes_since_last_index, 0);
    assert_eq!(seg.segment.size, 0);
}

#[test]
fn reopening_a_full_index_counts_every_entry() {
    let cfg = SegmentConfig { base_dir: String::new(), base_offset: 0, segment_bytes: 16, index_interval_bytes: 16 };
    let mut index = MmapMut::map_anon(cfg.index_file_size()).unwrap();
    let time_index = MmapMut::map_anon(cfg.index_file_size()).unwrap();
    index[31] = 1;
    let seg = LogSegment::open(&cfg, 5, index, time_index);
    assert_eq!(seg.index_count, 2);
}

#[test]
fn fetch_all_reads_back_every_appended_batch() {
    let mut seg = make_seg(0, 1 << 20);
    let a = make_batch(0, 2, b"first");
    let b = make_batch(2, 1, b"second");
    append(&mut seg, &a);
    append(&mut seg, &b);
    let view = seg.seg.publish();
    let all = view.fetch_all(&seg.log);
    assert_eq!(all.len(), 2);
    assert_eq!(all[0].base_offset, 0);
    assert_eq!(all[0].records_count, 2);
    assert_eq!(&all[0].records[..], b"first");
    assert_eq!(all[1].base_offset, 2);
    assert_eq!(&all[1].records[..], b"second");
}

#[test]
fn fetch_starts_at_the_record_with_the_offset() {
    let mut seg = make_indexed_seg(0);
    let mut payload = Vec::new();
    for i in 0u64..3 {
        payload.extend(Record::new(i, format!("k{}", i).as_bytes(), b"v").encode());
    }
    let batch = RecordBatch {
        base_offset: 0,
        batch_length: 4 + payload.len() as u32,
        records_count: 3,
        records: Bytes::from(payload.clone()),
    };
    append(&mut seg, &batch);
    let view = seg.seg.publish();

    let batches = fetch(&seg, &view, fetch_req(2, 1 << 20));
    assert_eq!(batches.len(), 1);
    assert_eq!(batches[0].base_offset, 2);
    assert_eq!(batches[0].records_count, 1);
    let record_len = 24 + 2 + 1;
    assert_eq!(&batches[0].records[..], &payload[2 * record_len..]);
    assert_eq!(batches[0].batch_length, 4 + record_len as u32);
}

#[test]
fn fetch_stops_at_the_byte_limit() {
    let mut seg = make_indexed_seg(0);
    append(&mut seg, &make_batch(0, 1, b"aaaa"));
    append(&mut seg, &make_batch(1, 1, b"bbbb"));
    append(&mut seg, &make_batch(2, 1, b"cccc"));
    let view = seg.seg.publish();
    // the first batch counts 8 bytes; each further one 8 more
    let batches = fetch(&seg, &view, fetch_req(0, 16));
    assert_eq!(batches.len(), 2);
    assert_eq!(&batches[1].records[..], b"bbbb");
    let batches = fetch(&seg, &view, fetch_req(0, 1 << 20));
    assert_eq!(batches.len(), 3);
}

#[test]
fn fetch_past_the_end_is_empty() {
    let mut seg = make_seg(0, 1 << 20);
    append(&mut seg, &make_batch(0, 1, b"x"));
    let view = seg.seg.publish();
    assert!(fetch(&seg, &view, fetch_req(5, 1 << 20)).is_empty());
}

#[test]
fn linear_search_steps_over_batches() {
    let mut seg = make_seg(0, 1 << 20);
    append(&mut seg, &make_batch(0, 2, b"ab"));
    append(&mut seg, &make_batch(2, 3, b"cde"));
    let view = seg.seg.publish();
    let start = rafka::segment::metadata::IndexEntry { offset: 0, pos: 0 };
    assert_eq!(view.linear_search(&seg.log, 1, start).unwrap(), 0);
    assert_eq!(view.linear_search(&seg.log, 3, start).unwrap(), 18);
    assert_eq!(view.linear_search(&seg.log, 9, start), Err(SegmentError::EndOfSegment));
}

#[test]
fn records_count_sums_the_batches() {
    let mut seg = make_seg(0, 1 << 20);
    append(&mut seg, &make_batch(0, 2, b"ab"));
    append(&mut seg, &make_batch(2, 3, b"cde"));
    assert_eq!(seg.seg.records_count(&seg.log).unwrap(), 5);
    seg.seg.size += 3;
    assert_eq!(seg.seg.records_count(&seg.log), Err(SegmentError::TruncatedBatch));
}

#[test]
fn find_physical_position_picks_the_last_entry_at_or_below() {
    let mut index = Vec::new();
    for (offset, pos) in [(3u64, 0u64), (10, 100), (20, 200)] {
        index.extend_from_slice(&offset.to_be_bytes());
        index.extend_from_slice(&pos.to_be_bytes());
    }
    let view = SegmentView { base_offset: 0, index_count: 3, size: 300 };
    let at = |target: u64| view.find_physical_position(&index, target).map(|e| (e.offset, e.pos));
    assert_eq!(at(15), Some((10, 100)));
    assert_eq!(at(10), Some((10, 100)));
    assert_eq!(at(5), Some((3, 0)));
    assert_eq!(at(25), Some((20, 200)));
    assert_eq!(at(2), None);
}

#[test]
fn written_index_entry_is_found_again_at_a_large_offset() {
    let base = 1u64 << 56;
    let mut seg = make_indexed_seg(base);
    append(&mut seg, &single_record_batch(base, 0, b"k", b"v"));
    let view = seg.seg.publish();
    let entry = view.find_physical_position(&seg.seg.index_file[..], base).unwrap();
    assert_eq!((entry.offset, entry.pos), (base, 0));
    let batches = fetch(&seg, &view, fetch_req(base, 1 << 20));
    assert_eq!(batches.len(), 1);
    assert_eq!(batches[0].base_offset, base);
}

#[test]
fn fetch_checked_refuses_a_batch_shorter_than_its_count() {
    let mut log = Vec::new();
    log.extend_from_slice(&0u64.to_be_bytes());
    log.extend_from_slice(&0u32.to_be_bytes());
    log.extend_from_slice(&0u32.to_be_bytes());
    let view = SegmentView { base_offset: 0, index_count: 0, size: 16 };
    assert!(view.fetch_checked(&log, &[], fetch_req(0, 1 << 20)).is_none());
    let mut seg = make_seg(0, 1 << 20);
    append(&mut seg, &make_batch(0, 1, b"x"));
    let view = seg.seg.publish();
    assert_eq!(view.fetch_checked(&seg.log, &seg.seg.index_file[..], fetch_req(0, 1 << 20)).unwrap().len(), 1);
}
