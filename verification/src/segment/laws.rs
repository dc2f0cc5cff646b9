//! What reading a segment gives back of what was appended to it.

use vstd::prelude::*;
use crate::record::{record_decodable, decode_record_fields};
use crate::segment::log_segment::splice;
use crate::segment::metadata::{entry_at, find_record_start as find_start};
use crate::segment::metadata::{
    SegmentView, IndexEntry, batches_in, fetch_start, fetch_result, scan_from, find_record_start,
    more_batches, size_in_range,
};
use crate::storage::record_batch::{
    RecordBatchView, batch_consistent, batch_decodable, batch_header_bytes, decode_batch,
    declared_batch_length, decode_batch_from_file, lemma_batch_roundtrip,
};
use crate::wire::{bytes_or_zero, read_u32, u32_be, u64_be, lemma_u32_be_roundtrip, lemma_u64_be_roundtrip};

verus! {

/// Reading batch after batch from `pos` ends exactly at the end of `buf`,
/// every batch on the way whole.
pub open spec fn walk_ends_at_end(buf: Seq<u8>, pos: int) -> bool
    decreases (if pos < buf.len() { buf.len() - pos } else { 0 }),
{
    if pos == buf.len() {
        true
    } else if pos < 0 || pos + 12 > buf.len() || !batch_decodable(buf, pos) {
        false
    } else {
        walk_ends_at_end(buf, pos + 12 + declared_batch_length(buf, pos))
    }
}

/// The bytes a batch takes in a log: its header, then its records.
pub open spec fn batch_log_bytes(b: RecordBatchView) -> Seq<u8> {
    batch_header_bytes(b) + b.records
}

/// The index entry that an append writes at entry `k` reads back as the
/// offset and position written, and the entries before it read as before.
pub proof fn lemma_index_entry_reads_back(index: Seq<u8>, k: int, offset: u64, pos: u64)
    requires
        0 <= k,
        16 * k + 16 <= index.len(),
    ensures
        entry_at(
            splice(index, 16 * k, u64_be(offset) + u64_be(pos)),
            k,
        ) == (IndexEntry { offset, pos }),
        forall|j: int|
            0 <= j < k ==> entry_at(
                splice(index, 16 * k, u64_be(offset) + u64_be(pos)),
                j,
            ) == #[trigger] entry_at(index, j),
{
    lemma_u64_be_roundtrip(offset);
    lemma_u64_be_roundtrip(pos);
    let w = u64_be(offset) + u64_be(pos);
    let t = splice(index, 16 * k, w);
    assert(t.subrange(16 * k, 16 * k + 8) =~= u64_be(offset));
    assert(t.subrange(16 * k + 8, 16 * k + 16) =~= u64_be(pos));
    assert forall|j: int| 0 <= j < k implies entry_at(t, j) == #[trigger] entry_at(index, j) by {
        assert(t.subrange(16 * j, 16 * j + 8) =~= index.subrange(16 * j, 16 * j + 8));
        assert(t.subrange(16 * j + 8, 16 * j + 16) =~= index.subrange(16 * j + 8, 16 * j + 16));
    }
}

/// Reading a file within its length reads its bytes.
pub proof fn lemma_bytes_or_zero_within(s: Seq<u8>, pos: int, n: nat)
    requires
        0 <= pos,
        pos + n <= s.len(),
    ensures
        bytes_or_zero(s, pos, n) == s.subrange(pos, pos + n),
{
    assert(bytes_or_zero(s, pos, n) =~= s.subrange(pos, pos + n));
}

proof fn lemma_batches_after_append_from(log: Seq<u8>, b: RecordBatchView, pos: int)
    requires
        batch_consistent(b),
        0 <= pos <= log.len(),
        walk_ends_at_end(log, pos),
        batches_in(log, pos) is Some,
    ensures
        batches_in(log + batch_log_bytes(b), pos) == Some(batches_in(log, pos).unwrap().push(b)),
        walk_ends_at_end(log + batch_log_bytes(b), pos),
    decreases log.len() - pos,
{
    let w = batch_log_bytes(b);
    let all = log + w;
    lemma_u32_be_roundtrip(b.batch_length);
    lemma_u64_be_roundtrip(b.base_offset);
    if pos == log.len() {
        assert(all.subrange(pos, pos + 16 + b.records.len()) =~= batch_header_bytes(b) + b.records);
        lemma_batch_roundtrip(all, pos, b);
        let next = pos + 12 + declared_batch_length(all, pos);
        assert(next == all.len());
        assert(batches_in(all, next) == Some(Seq::<RecordBatchView>::empty()));
        assert(walk_ends_at_end(all, next));
        assert(batches_in(log, pos) == Some(Seq::<RecordBatchView>::empty()));
        assert(seq![b] + Seq::<RecordBatchView>::empty() =~= Seq::<RecordBatchView>::empty().push(b));
    } else {
        let len = declared_batch_length(log, pos);
        assert(all.subrange(pos + 8, pos + 12) =~= log.subrange(pos + 8, pos + 12));
        assert(declared_batch_length(all, pos) == len);
        assert(batch_decodable(all, pos));
        assert(all.subrange(pos, pos + 8) =~= log.subrange(pos, pos + 8));
        assert(all.subrange(pos + 12, pos + 16) =~= log.subrange(pos + 12, pos + 16));
        assert(all.subrange(pos + 16, pos + 12 + len) =~= log.subrange(pos + 16, pos + 12 + len));
        assert(decode_batch(all, pos) == decode_batch(log, pos));
        lemma_batches_after_append_from(log, b, pos + 12 + len);
        let rest = batches_in(log, pos + 12 + len).unwrap();
        assert(seq![decode_batch(log, pos)] + rest.push(b) =~= (seq![decode_batch(log, pos)]
            + rest).push(b));
    }
}

/// Appending a consistent batch to a log that holds whole batches up to its
/// end: reading the log batch by batch gives the batches it held, then the
/// new one, and the log again ends with a whole batch.
pub proof fn lemma_batches_after_append(log: Seq<u8>, b: RecordBatchView)
    requires
        batch_consistent(b),
        walk_ends_at_end(log, 0),
        batches_in(log, 0) is Some,
    ensures
        batches_in(log + batch_log_bytes(b), 0) == Some(batches_in(log, 0).unwrap().push(b)),
        walk_ends_at_end(log + batch_log_bytes(b), 0),
{
    lemma_batches_after_append_from(log, b, 0);
}

/// A segment that holds whole batches up to its size reads back, once a
/// consistent batch is appended and the segment has grown by the batch's
/// header prefix and length, the batches it held and then the new one.
pub proof fn lemma_fetch_all_after_append(
    before: SegmentView,
    log: Seq<u8>,
    b: RecordBatchView,
    after: SegmentView,
)
    requires
        log.len() == before.size,
        walk_ends_at_end(log, 0),
        batches_in(log, 0) is Some,
        batch_consistent(b),
        after.size == before.size + 12 + b.batch_length,
    ensures
        batches_in(bytes_or_zero(log + batch_log_bytes(b), 0, after.size as nat), 0) == Some(
            batches_in(bytes_or_zero(log, 0, before.size as nat), 0).unwrap().push(b),
        ),
{
    lemma_u32_be_roundtrip(b.batch_length);
    lemma_u64_be_roundtrip(b.base_offset);
    let all = log + batch_log_bytes(b);
    lemma_bytes_or_zero_within(log, 0, before.size as nat);
    assert(log.subrange(0, log.len() as int) =~= log);
    lemma_bytes_or_zero_within(all, 0, after.size as nat);
    assert(all.subrange(0, all.len() as int) =~= all);
    lemma_batches_after_append(log, b);
}

/// Reading the batch headers of `log` from `pos`, each batch whole, and
/// counting records from `offset`: the count stays below `target` before
/// each batch, never passes it, and reaches it exactly at the end of `log`.
pub open spec fn counts_up_to(log: Seq<u8>, pos: int, offset: int, target: int) -> bool
    decreases (if pos < log.len() { log.len() - pos } else { 0 }),
{
    if pos == log.len() {
        offset == target
    } else if pos < 0 || pos + 16 > log.len() {
        false
    } else {
        let batch_length = read_u32(log, pos + 8) as int;
        let records_count = read_u32(log, pos + 12) as int;
        &&& 4 <= batch_length
        &&& pos + 12 + batch_length <= log.len()
        &&& offset < target
        &&& offset + records_count <= target
        &&& counts_up_to(log, pos + 12 + batch_length, offset + records_count, target)
    }
}

/// Reading within a prefix of a file reads the prefix.
proof fn lemma_read_u32_prefix(log: Seq<u8>, w: Seq<u8>, pos: int)
    requires
        0 <= pos,
        pos + 4 <= log.len(),
    ensures
        read_u32(log + w, pos) == read_u32(log, pos),
{
    assert(bytes_or_zero(log + w, pos, 4) =~= bytes_or_zero(log, pos, 4));
}

proof fn lemma_scan_reaches_end(log: Seq<u8>, w: Seq<u8>, size: int, target: u64, pos: int, offset: int)
    requires
        counts_up_to(log, pos, offset, target as int),
        0 <= pos <= log.len(),
        log.len() < size,
    ensures
        scan_from(log + w, size, target, offset, pos) == Some(Ok::<u64, ()>(log.len() as u64)),
    decreases log.len() - pos,
{
    if pos < log.len() {
        lemma_read_u32_prefix(log, w, pos + 8);
        lemma_read_u32_prefix(log, w, pos + 12);
        let batch_length = read_u32(log, pos + 8) as int;
        let records_count = read_u32(log, pos + 12) as int;
        lemma_scan_reaches_end(log, w, size, target, pos + 12 + batch_length, offset + records_count);
    }
}

/// A fetch at the base offset of the batch last appended to a segment
/// returns that batch whole, whatever the byte limit, when the scan starts
/// at the beginning of the log and the batches before it count their records
/// up to its base offset, and its first record is the one at offset delta 0.
pub proof fn lemma_fetch_after_append_to_log(
    seg: SegmentView,
    index: Seq<u8>,
    log: Seq<u8>,
    b: RecordBatchView,
    start: u64,
    max: u32,
)
    requires
        batch_consistent(b),
        seg.size == log.len() + 16 + b.records.len(),
        size_in_range(seg.size as int),
        fetch_start(seg, index, b.base_offset) == Some(IndexEntry { offset: start, pos: 0 }),
        start == b.base_offset || counts_up_to(log, 0, start as int, b.base_offset as int),
        start == b.base_offset ==> log.len() == 0,
        record_decodable(b.records),
        decode_record_fields(b.records).0 == 0,
    ensures
        fetch_result(seg, log + batch_log_bytes(b), index, b.base_offset, max) == Some(seq![b]),
{
    let w = batch_log_bytes(b);
    let all = log + w;
    let pos = log.len() as int;
    lemma_u32_be_roundtrip(b.batch_length);
    lemma_u32_be_roundtrip(b.records_count);
    lemma_u64_be_roundtrip(b.base_offset);
    if start == b.base_offset {
        assert(scan_from(all, seg.size as int, b.base_offset, start as int, 0) == Some(
            Ok::<u64, ()>(0),
        ));
    } else {
        lemma_scan_reaches_end(log, w, seg.size as int, b.base_offset, 0, start as int);
    }
    assert(all.len() == seg.size);
    lemma_bytes_or_zero_within(all, pos, 8);
    lemma_bytes_or_zero_within(all, pos + 8, 4);
    lemma_bytes_or_zero_within(all, pos + 12, 4);
    lemma_bytes_or_zero_within(all, pos + 16, (b.batch_length - 4) as nat);
    assert(all.subrange(pos, pos + 8) =~= u64_be(b.base_offset));
    assert(all.subrange(pos + 8, pos + 12) =~= u32_be(b.batch_length));
    assert(all.subrange(pos + 12, pos + 16) =~= u32_be(b.records_count));
    assert(all.subrange(pos + 16, pos + 16 + b.records.len() as int) =~= b.records);
    assert(read_u32(all, pos + 8) == b.batch_length);
    let batch = decode_batch_from_file(all, pos);
    assert(batch == b);
    assert(b.records.skip(0) =~= b.records);
    assert(find_record_start(b.records, 0, 0, 0) == (0int, 0nat));
    let first = RecordBatchView {
        base_offset: b.base_offset,
        batch_length: (b.records.len() + 4) as u32,
        records_count: b.records_count,
        records: b.records,
    };
    assert(first == b);
    assert(more_batches(all, seg.size as int, pos + 12 + b.batch_length, b.records.len() + 4int, max)
        == Some(Seq::<RecordBatchView>::empty()));
    assert(seq![first] + Seq::<RecordBatchView>::empty() =~= seq![b]);
}

/// The bytes that batches count against a fetch's limit: the sum of their
/// batch lengths.
pub open spec fn total_length(v: Seq<RecordBatchView>) -> int
    decreases v.len(),
{
    if v.len() == 0 {
        0
    } else {
        v[0].batch_length + total_length(v.drop_first())
    }
}

proof fn lemma_total_length_prepend(b: RecordBatchView, rest: Seq<RecordBatchView>)
    ensures
        total_length(seq![b] + rest) == b.batch_length + total_length(rest),
{
    assert((seq![b] + rest).drop_first() =~= rest);
}

proof fn lemma_find_start_bounds(records: Seq<u8>, pos: int, target: u64, skipped: nat)
    ensures
        0 <= find_start(records, pos, target, skipped).0 <= records.len(),
    decreases (if pos < records.len() { records.len() - pos } else { 0 }),
{
    if 0 <= pos < records.len() {
        let rest = records.skip(pos);
        if crate::record::record_decodable(rest) && crate::record::decode_record_fields(rest).0 != target {
            lemma_find_start_bounds(
                records,
                pos + crate::storage::record::record_encoded_len(rest),
                target,
                skipped + 1,
            );
        }
    }
}

/// The whole batches a fetch adds after its first, counted from a running
/// total `total`: if any is returned, the total with all of them stays within
/// the limit, and each is whole (its length counts its record count field
/// and its records).
proof fn lemma_more_batches_within(log: Seq<u8>, size: int, pos: int, total: int, max: u32)
    ensures
        more_batches(log, size, pos, total, max) matches Some(rest) ==> {
            &&& rest.len() > 0 ==> total + total_length(rest) <= max
            &&& forall|i: int| 0 <= i < rest.len() ==> batch_consistent(#[trigger] rest[i])
        },
    decreases (if pos < size { size - pos } else { 0 }),
{
    if !(total >= max) && !(pos < 0 || pos + 12 > size) && !(read_u32(log, pos + 8) < 4) {
        let b = decode_batch_from_file(log, pos);
        if !(12 + b.batch_length > size - pos) && !(total + b.batch_length > u32::MAX) {
            let t = total + b.batch_length;
            lemma_more_batches_within(log, size, pos + 12 + b.batch_length, t, max);
            assert(batch_consistent(b));
            match more_batches(log, size, pos + 12 + b.batch_length, t, max) {
                Some(rest) => {
                    if t <= max {
                        lemma_total_length_prepend(b, rest);
                        let all = seq![b] + rest;
                        assert forall|i: int| 0 <= i < all.len() implies batch_consistent(
                            #[trigger] all[i],
                        ) by {
                            if i > 0 {
                                assert(all[i] == rest[i - 1]);
                            }
                        }
                    }
                },
                None => {},
            }
        }
    }
}

/// What a fetch returns respects the request's byte limit and hands out
/// whole batches: when it returns more than one batch, their lengths add up
/// to no more than `max`; the first batch starts at the fetch offset; and
/// each batch's length counts its record count field and its records.
pub proof fn lemma_fetch_within_limit(seg: SegmentView, log: Seq<u8>, index: Seq<u8>, fetch_offset: u64, max: u32)
    ensures
        fetch_result(seg, log, index, fetch_offset, max) matches Some(v) ==> {
            &&& v.len() >= 2 ==> total_length(v) <= max
            &&& v.len() > 0 ==> v[0].base_offset == fetch_offset
            &&& forall|i: int| 0 <= i < v.len() ==> batch_consistent(#[trigger] v[i])
        },
{
    match fetch_start(seg, index, fetch_offset) {
        None => {},
        Some(e) => match scan_from(log, seg.size as int, fetch_offset, e.offset as int, e.pos as int) {
            Some(Ok(pos)) => {
                if !(pos >= seg.size) && !(read_u32(log, pos + 8) < 4) {
                    let batch = decode_batch_from_file(log, pos as int);
                    let delta = if fetch_offset >= batch.base_offset {
                        (fetch_offset - batch.base_offset) as u64
                    } else {
                        0u64
                    };
                    let (start, skipped) = find_start(batch.records, 0, delta, 0);
                    lemma_find_start_bounds(batch.records, 0, delta, 0);
                    let sliced = batch.records.skip(start);
                    assert(sliced.len() + 4 <= u32::MAX);
                    let first = RecordBatchView {
                        base_offset: fetch_offset,
                        batch_length: (sliced.len() + 4) as u32,
                        records_count: if batch.records_count >= skipped {
                            (batch.records_count - skipped) as u32
                        } else {
                            0u32
                        },
                        records: sliced,
                    };
                    let total = sliced.len() + 4int;
                    lemma_more_batches_within(log, seg.size as int, pos + 12 + batch.batch_length, total, max);
                    match more_batches(log, seg.size as int, pos + 12 + batch.batch_length, total, max) {
                        Some(rest) => {
                            lemma_total_length_prepend(first, rest);
                            let all = seq![first] + rest;
                            assert forall|i: int| 0 <= i < all.len() implies batch_consistent(
                                #[trigger] all[i],
                            ) by {
                                if i > 0 {
                                    assert(all[i] == rest[i - 1]);
                                }
                            }
                            if all.len() >= 2 {
                                assert(rest.len() > 0);
                            }
                        },
                        None => {},
                    }
                }
            },
            _ => {},
        },
    }
}

/// The batches `v` lie in the log one right after another, the first at
/// `p`, each as reading the log there gives it.
pub open spec fn lies_from(log: Seq<u8>, p: int, v: Seq<RecordBatchView>) -> bool
    decreases v.len(),
{
    if v.len() == 0 {
        true
    } else {
        v[0] == decode_batch_from_file(log, p) && lies_from(log, p + 12 + v[0].batch_length, v.drop_first())
    }
}

/// Where the log continues after the batches `v` laid from `p`.
pub open spec fn end_after(p: int, v: Seq<RecordBatchView>) -> int
    decreases v.len(),
{
    if v.len() == 0 {
        p
    } else {
        end_after(p + 12 + v[0].batch_length, v.drop_first())
    }
}

/// A fetch that has counted `total` bytes has a reason to stop at `e`: the
/// limit is reached, no whole batch lies at `e` within the segment's `size`,
/// or the batch there would bring the total past the limit.
pub open spec fn fetch_stops_at(log: Seq<u8>, size: int, e: int, total: int, max: u32) -> bool {
    ||| total >= max
    ||| e + 12 > size
    ||| 12 + read_u32(log, e + 8) > size - e
    ||| total + read_u32(log, e + 8) > max
}

/// Where the log continues after the batch that holds the fetch offset,
/// when the fetch finds such a batch.
pub open spec fn fetch_next_pos(seg: SegmentView, log: Seq<u8>, index: Seq<u8>, fetch_offset: u64) -> Option<int> {
    match fetch_start(seg, index, fetch_offset) {
        None => None,
        Some(e) => match scan_from(log, seg.size as int, fetch_offset, e.offset as int, e.pos as int) {
            Some(Ok(pos)) => if pos < seg.size && read_u32(log, pos + 8) >= 4 {
                Some(pos + 12 + read_u32(log, pos + 8))
            } else {
                None
            },
            _ => None,
        },
    }
}

proof fn lemma_more_batches_maximal(log: Seq<u8>, size: int, pos: int, total: int, max: u32)
    requires
        pos >= 0,
    ensures
        more_batches(log, size, pos, total, max) matches Some(rest) ==> {
            &&& lies_from(log, pos, rest)
            &&& fetch_stops_at(log, size, end_after(pos, rest), total + total_length(rest), max)
        },
    decreases (if pos < size { size - pos } else { 0 }),
{
    if !(total >= max) && !(pos + 12 > size) && !(read_u32(log, pos + 8) < 4) {
        let b = decode_batch_from_file(log, pos);
        if !(12 + b.batch_length > size - pos) && !(total + b.batch_length > u32::MAX) {
            let t = total + b.batch_length;
            let next = pos + 12 + b.batch_length;
            lemma_more_batches_maximal(log, size, next, t, max);
            match more_batches(log, size, next, t, max) {
                Some(rest) => {
                    if t <= max {
                        let all = seq![b] + rest;
                        assert(all.drop_first() =~= rest);
                        assert(all[0] == b);
                        lemma_total_length_prepend(b, rest);
                    } else {
                        assert(rest == Seq::<RecordBatchView>::empty());
                        assert(total_length(rest) == 0);
                        assert(end_after(pos, rest) == pos);
                    }
                },
                None => {},
            }
        }
    }
}

/// A fetch hands out, after the batch that holds the fetch offset, the
/// batches that follow that batch in the log, one right after another, and
/// stops only where it has a reason to: the limit is reached, no whole batch
/// follows within the segment, or the next batch would bring the byte total
/// past the limit.
pub proof fn lemma_fetch_takes_all_that_fit(seg: SegmentView, log: Seq<u8>, index: Seq<u8>, fetch_offset: u64, max: u32)
    ensures
        fetch_result(seg, log, index, fetch_offset, max) matches Some(v) ==> (v.len() > 0 ==> (
        fetch_next_pos(seg, log, index, fetch_offset) matches Some(p) && lies_from(log, p, v.drop_first())
            && fetch_stops_at(log, seg.size as int, end_after(p, v.drop_first()), total_length(v), max))),
{
    match fetch_start(seg, index, fetch_offset) {
        None => {},
        Some(e) => match scan_from(log, seg.size as int, fetch_offset, e.offset as int, e.pos as int) {
            Some(Ok(pos)) => {
                if !(pos >= seg.size) && !(read_u32(log, pos + 8) < 4) {
                    let batch = decode_batch_from_file(log, pos as int);
                    let delta = if fetch_offset >= batch.base_offset {
                        (fetch_offset - batch.base_offset) as u64
                    } else {
                        0u64
                    };
                    let (start, skipped) = find_start(batch.records, 0, delta, 0);
                    lemma_find_start_bounds(batch.records, 0, delta, 0);
                    let sliced = batch.records.skip(start);
                    assert(sliced.len() + 4 <= u32::MAX);
                    let first = RecordBatchView {
                        base_offset: fetch_offset,
                        batch_length: (sliced.len() + 4) as u32,
                        records_count: if batch.records_count >= skipped {
                            (batch.records_count - skipped) as u32
                        } else {
                            0u32
                        },
                        records: sliced,
                    };
                    let total = sliced.len() + 4int;
                    let next = pos + 12 + batch.batch_length;
                    lemma_more_batches_maximal(log, seg.size as int, next, total, max);
                    match more_batches(log, seg.size as int, next, total, max) {
                        Some(rest) => {
                            lemma_total_length_prepend(first, rest);
                            assert((seq![first] + rest).drop_first() =~= rest);
                        },
                        None => {},
                    }
                }
            },
            _ => {},
        },
    }
}

} // verus!
