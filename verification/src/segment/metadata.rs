//! A published view of a log segment: its base offset, how many index
//! entries and how many log bytes it covers, and the reads that serve
//! fetches. The segment's bytes are handed in: `log` is the log file's
//! content and `index` the index file's.

use vstd::prelude::*;
use bytes::Bytes;
use crate::buffer::{bytes_view, bytes_as_slice, bytes_slice};
use crate::protocol::fetch::FetchPartition;
use crate::record::{record_decodable, decode_record_fields};
use crate::storage::record::{Record, record_encoded_len};
use crate::storage::record_batch::{BATCH_HEADER_PREFIX, RecordBatch, RecordBatchView, batch_decodable, decode_batch, declared_batch_length, decode_batch_from_file};
use crate::wire::{read_u32, read_u32_at, read_or_zero, bytes_or_zero, be_u64, get_u64_be};

verus! {

/// Bytes of an index entry: offset and position, 8 big-endian bytes each.
pub const INDEX_ENTRY_SIZE: usize = 16;

/// Why reading a segment's log stopped short.
#[derive(Debug, Clone, Copy, PartialEq, Eq, Structural)]
pub enum SegmentError {
    /// The scan reached the end of the segment before the offset sought.
    EndOfSegment,
    /// A batch header is cut short by the end of the segment.
    TruncatedBatch,
}

/// Where a log position lies.
pub type RecordLocation = u64;

/// An index entry: the offset of a batch and its position in the log file.
#[derive(Debug, Clone, Copy, PartialEq, Eq, Structural)]
pub struct IndexEntry {
    pub offset: u64,
    pub pos: u64,
}

#[derive(Debug, Clone, Copy)]
pub struct SegmentView {
    pub base_offset: u64,
    pub index_count: usize,
    pub size: usize,
}

/// The offset that index entry `k` holds.
pub open spec fn entry_offset(index: Seq<u8>, k: int) -> u64 {
    be_u64(index.subrange(16 * k, 16 * k + 8))
}

/// The log position that index entry `k` holds.
pub open spec fn entry_pos(index: Seq<u8>, k: int) -> u64 {
    be_u64(index.subrange(16 * k + 8, 16 * k + 16))
}

/// Index entry `k`.
pub open spec fn entry_at(index: Seq<u8>, k: int) -> IndexEntry {
    IndexEntry { offset: entry_offset(index, k), pos: entry_pos(index, k) }
}

/// The first `count` entries are in nondecreasing order of offset.
pub open spec fn index_sorted(index: Seq<u8>, count: int) -> bool {
    forall|i: int, j: int| 0 <= i <= j < count ==> entry_offset(index, i) <= entry_offset(index, j)
}

/// Entry `k` is where a search for `target` stops: its offset is at most
/// the target and the next entry's, if any, is above it.
pub open spec fn is_floor_entry(index: Seq<u8>, count: int, target: u64, k: int) -> bool {
    &&& 0 <= k < count
    &&& entry_offset(index, k) <= target
    &&& (k + 1 == count || entry_offset(index, k + 1) > target)
}

/// Where the binary search over entries `lo..=hi` ends: the first entry
/// past those whose offset it found at most the target.
pub open spec fn bsearch(index: Seq<u8>, target: u64, lo: int, hi: int) -> int
    decreases hi + 1 - lo,
{
    if lo > hi || lo < 0 {
        lo
    } else {
        let mid = lo + (hi - lo) / 2;
        if entry_offset(index, mid) <= target {
            bsearch(index, target, mid + 1, hi)
        } else if mid == 0 {
            0
        } else {
            bsearch(index, target, lo, mid - 1)
        }
    }
}

/// The entry that the binary search for `target` settles on, if any.
pub open spec fn index_floor(index: Seq<u8>, count: int, target: u64) -> Option<int> {
    if count <= 0 {
        None
    } else {
        let lo = bsearch(index, target, 0, count - 1);
        if lo == 0 {
            None
        } else {
            Some(lo - 1)
        }
    }
}

/// Of a sorted index, the entry where a search stops is the last one whose
/// offset is at most the target: every entry up to it is at most the
/// target, every later one above it.
pub proof fn lemma_floor_entry_of_sorted_index(index: Seq<u8>, count: int, target: u64, k: int)
    requires
        index_sorted(index, count),
        is_floor_entry(index, count, target, k),
    ensures
        forall|j: int| 0 <= j < count ==> (entry_offset(index, j) <= target <==> j <= k),
{
    assert forall|j: int| 0 <= j < count implies (entry_offset(index, j) <= target <==> j <= k) by {
        if j <= k {
            assert(entry_offset(index, j) <= entry_offset(index, k));
        } else {
            assert(entry_offset(index, k + 1) <= entry_offset(index, j));
        }
    }
}

/// Segment sizes this library handles: a position past the segment by at
/// most one batch, plus another batch header, stays within 64 bits.
pub open spec fn size_in_range(size: int) -> bool {
    size + 24 + u32::MAX <= u64::MAX
}

/// The scan of the log from index entry (`offset`, `pos`) towards
/// `target`: while short of the target, step over each batch header's
/// length and count, until a batch's records would pass the target. `Err`
/// when the scan reaches the end of the segment short of the target; `None`
/// where the offset arithmetic would overflow.
pub open spec fn scan_from(log: Seq<u8>, size: int, target: u64, offset: int, pos: int) -> Option<
    Result<u64, ()>,
>
    decreases (if pos < size { size - pos } else { 0 }),
{
    if offset >= target {
        Some(Ok(pos as u64))
    } else if pos >= size {
        Some(Err(()))
    } else {
        let batch_length = read_u32(log, pos + 8) as int;
        let records_count = read_u32(log, pos + 12) as int;
        if offset + records_count > u64::MAX {
            None
        } else if offset + records_count > target {
            Some(Ok(pos as u64))
        } else {
            scan_from(log, size, target, offset + records_count, pos + 12 + batch_length)
        }
    }
}

/// The batches that lie one after another in `buf` from `pos`, as long as
/// a batch's first 12 bytes fit; `None` where such a batch does not fit whole.
pub open spec fn batches_in(buf: Seq<u8>, pos: int) -> Option<Seq<RecordBatchView>>
    decreases (if pos < buf.len() { buf.len() - pos } else { 0 }),
{
    if pos < 0 || pos + 12 > buf.len() {
        Some(Seq::empty())
    } else if !batch_decodable(buf, pos) {
        None
    } else {
        match batches_in(buf, pos + 12 + declared_batch_length(buf, pos)) {
            Some(rest) => Some(seq![decode_batch(buf, pos)] + rest),
            None => None,
        }
    }
}

/// A batch list as plain values.
pub open spec fn batches_view(v: Seq<RecordBatch>) -> Seq<RecordBatchView> {
    v.map_values(|b: RecordBatch| b@)
}

/// The first record from `pos` of a batch's records whose offset delta is
/// `target`, as its byte position and how many records came before it; when
/// the records run out or stop decoding first, position 0 and how many were
/// read.
pub open spec fn find_record_start(records: Seq<u8>, pos: int, target: u64, skipped: nat) -> (int, nat)
    decreases (if pos < records.len() { records.len() - pos } else { 0 }),
{
    if pos < 0 || pos >= records.len() {
        (0, skipped)
    } else {
        let rest = records.skip(pos);
        if !record_decodable(rest) {
            (0, skipped)
        } else if decode_record_fields(rest).0 == target {
            (pos, skipped)
        } else {
            find_record_start(records, pos + record_encoded_len(rest), target, skipped + 1)
        }
    }
}

/// The whole batches after the first that a fetch adds: while the byte
/// total stays below `max`, read the next batch; stop at the segment's end
/// or at a batch that does not fit in it; count its length into the total
/// and keep it if the total is still within `max`. `None` where reading a
/// batch whose length is below 4, or the total, would overflow.
pub open spec fn more_batches(log: Seq<u8>, size: int, pos: int, total: int, max: u32) -> Option<
    Seq<RecordBatchView>,
>
    decreases (if pos < size { size - pos } else { 0 }),
{
    if total >= max {
        Some(Seq::empty())
    } else if pos < 0 || pos + 12 > size {
        Some(Seq::empty())
    } else if read_u32(log, pos + 8) < 4 {
        None
    } else {
        let b = decode_batch_from_file(log, pos);
        if 12 + b.batch_length > size - pos {
            Some(Seq::empty())
        } else if total + b.batch_length > u32::MAX {
            None
        } else {
            let t = total + b.batch_length;
            match more_batches(log, size, pos + 12 + b.batch_length, t, max) {
                Some(rest) => if t <= max {
                    Some(seq![b] + rest)
                } else {
                    Some(rest)
                },
                None => None,
            }
        }
    }
}

/// The entry a fetch starts scanning from: the index's, or the segment's
/// start when the index has none and the segment is not empty.
pub open spec fn fetch_start(seg: SegmentView, index: Seq<u8>, target: u64) -> Option<IndexEntry> {
    match index_floor(index, seg.index_count as int, target) {
        Some(k) => Some(entry_at(index, k)),
        None => if seg.size > 0 {
            Some(IndexEntry { offset: seg.base_offset, pos: 0 })
        } else {
            None
        },
    }
}

/// What a fetch from the segment returns: the batch holding the fetch
/// offset, starting at the record with the matching offset delta (relabelled
/// with the fetch offset, its length and count cut down accordingly), then
/// the whole batches that `more_batches` adds. Empty when the segment is
/// empty, the scan runs past its end, or the position found is at its end.
/// `None` where reading a batch or adding up lengths would overflow.
pub open spec fn fetch_result(seg: SegmentView, log: Seq<u8>, index: Seq<u8>, fetch_offset: u64, max: u32) -> Option<
    Seq<RecordBatchView>,
> {
    match fetch_start(seg, index, fetch_offset) {
        None => Some(Seq::empty()),
        Some(e) => match scan_from(log, seg.size as int, fetch_offset, e.offset as int, e.pos as int) {
            None => None,
            Some(Err(_)) => Some(Seq::empty()),
            Some(Ok(pos)) => if pos >= seg.size {
                Some(Seq::empty())
            } else if read_u32(log, pos + 8) < 4 {
                None
            } else {
                let batch = decode_batch_from_file(log, pos as int);
                let delta = if fetch_offset >= batch.base_offset {
                    (fetch_offset - batch.base_offset) as u64
                } else {
                    0u64
                };
                let (start, skipped) = find_record_start(batch.records, 0, delta, 0);
                let sliced = batch.records.skip(start);
                let first = RecordBatchView {
                    base_offset: fetch_offset,
                    batch_length: (sliced.len() + 4) as u32,
                    records_count: if batch.records_count >= skipped {
                        (batch.records_count - skipped) as u32
                    } else {
                        0u32
                    },
                    records: sliced,
                };
                match more_batches(
                    log,
                    seg.size as int,
                    pos + 12 + batch.batch_length,
                    sliced.len() + 4int,
                    max,
                ) {
                    Some(rest) => Some(seq![first] + rest),
                    None => None,
                }
            },
        },
    }
}

/// Walks the records of a batch, each with the byte position it starts at.
struct RecordIter<'a> {
    bytes: &'a [u8],
    pos: usize,
}

impl<'a> RecordIter<'a> {
    /// The record at the current position and that position, moving past
    /// it; `None` at the end of the bytes or where a record does not decode.
    fn next(&mut self) -> (r: Option<(usize, Record)>)
        requires
            old(self).pos <= old(self).bytes@.len(),
        ensures
            final(self).bytes@ == old(self).bytes@,
            final(self).pos <= final(self).bytes@.len(),
            match r {
                None => {
                    &&& final(self).pos == old(self).pos
                    &&& (old(self).pos >= old(self).bytes@.len() || !record_decodable(
                        old(self).bytes@.skip(old(self).pos as int),
                    ))
                },
                Some((p, rec)) => {
                    let rest = old(self).bytes@.skip(old(self).pos as int);
                    &&& p == old(self).pos
                    &&& p < old(self).bytes@.len()
                    &&& record_decodable(rest)
                    &&& final(self).pos == p + record_encoded_len(rest)
                    &&& rec.offset_delta == decode_record_fields(rest).0
                },
            },
    {
        let len: usize = self.bytes.len();
        if self.pos >= len {
            return None;
        }
        let start = self.pos;
        let rest = &self.bytes[start..len];
        assert(rest@ =~= self.bytes@.skip(start as int));
        match Record::decode_raw(rest) {
            Ok((record, consumed)) => {
                self.pos = start + consumed;
                Some((start, record))
            },
            Err(_) => None,
        }
    }
}

impl SegmentView {
    /// An empty view of the segment starting at `base_offset`.
    pub fn new(base_offset: u64) -> (r: Self)
        ensures
            r.base_offset == base_offset,
            r.index_count == 0,
            r.size == 0,
    {
        SegmentView { base_offset, index_count: 0, size: 0 }
    }

    /// The same segment, covering `index_count` entries and `size` bytes.
    pub fn with_metadata(&self, index_count: usize, size: usize) -> (r: Self)
        ensures
            r.base_offset == self.base_offset,
            r.index_count == index_count,
            r.size == size,
    {
        SegmentView { base_offset: self.base_offset, index_count, size }
    }

    /// Every batch in the segment, read one after another from its start
    /// while a batch's first 12 bytes lie inside the segment.
    pub fn fetch_all(&self, log: &[u8]) -> (r: Vec<RecordBatch>)
        requires
            batches_in(bytes_or_zero(log@, 0, self.size as nat), 0) is Some,
        ensures
            batches_view(r@) == batches_in(bytes_or_zero(log@, 0, self.size as nat), 0).unwrap(),
    {
        let size = self.size;
        let buf = read_or_zero(log, 0, size);
        let ghost whole = buf@;
        let mut batches: Vec<RecordBatch> = Vec::new();
        let mut pos: usize = 0;
        while size - pos >= 12
            invariant
                whole == buf@,
                whole.len() == size,
                whole == bytes_or_zero(log@, 0, self.size as nat),
                size == self.size,
                pos <= size,
                batches_in(whole, pos as int) is Some,
                batches_view(batches@) + batches_in(whole, pos as int).unwrap() == batches_in(
                    whole,
                    0,
                ).unwrap(),
            decreases size - pos,
        {
            let batch = RecordBatch::decode(&buf, pos);
            let ghost old_batches = batches@;
            let ghost rest = batches_in(whole, pos + 12 + declared_batch_length(whole, pos as int));
            pos = pos + BATCH_HEADER_PREFIX + batch.batch_length as usize;
            batches.push(batch);
            assert(batches_view(batches@) =~= batches_view(old_batches).push(batches@.last()@));
            assert(batches_view(batches@) + rest.unwrap() =~= batches_view(old_batches) + (seq![
                batches@.last()@,
            ] + rest.unwrap()));
        }
        batches
    }

    /// Serves a fetch from this segment: finds the batch that holds the
    /// fetch offset, by the index and then by scanning the log, returns it
    /// from the record whose offset delta matches (relabelled with the fetch
    /// offset, its length and count cut down), then whole batches while the
    /// byte total stays below the request's limit.
    #[verifier::rlimit(50)]
    pub fn fetch_checked(&self, log: &[u8], index: &[u8], req: FetchPartition) -> (r: Option<
        Vec<RecordBatch>,
    >)
        requires
            index@.len() >= 16 * self.index_count,
            size_in_range(self.size as int),
        ensures
            match fetch_result(*self, log@, index@, req.fetch_offset, req.partition_max_bytes) {
                None => r is None,
                Some(v) => r matches Some(out) && batches_view(out@) == v,
            },
    {
        let ghost res = fetch_result(*self, log@, index@, req.fetch_offset, req.partition_max_bytes);
        let ghost goal = res.unwrap();
        let start = match self.find_physical_position(index, req.fetch_offset) {
            Some(idx) => idx,
            None => {
                if self.size > 0 {
                    IndexEntry { offset: self.base_offset, pos: 0 }
                } else {
                    assert(res == Some(Seq::<RecordBatchView>::empty()));
                    return Some(Vec::new());
                }
            },
        };
        assert(fetch_start(*self, index@, req.fetch_offset) == Some(start));
        let mut pos = match self.linear_search_checked(log, req.fetch_offset, start) {
            None => return None,
            Some(Ok(p)) => p,
            Some(Err(_)) => {
                assert(res == Some(Seq::<RecordBatchView>::empty()));
                return Some(Vec::new());
            },
        };
        let size = self.size as u64;
        if pos >= size {
            assert(res == Some(Seq::<RecordBatchView>::empty()));
            return Some(Vec::new());
        }
        if read_u32_at(log, pos + 8) < 4 {
            return None;
        }
        let batch = RecordBatch::decode_file(log, pos);
        let target_delta = req.fetch_offset.saturating_sub(batch.base_offset);
        let records = bytes_as_slice(&batch.records);
        let records_len: usize = records.len();
        assert(records_len <= u32::MAX - 4);

        let mut iter = RecordIter { bytes: records, pos: 0 };
        let mut skipped_count: u32 = 0;
        let mut starting_pos: usize = 0;
        loop
            invariant_except_break
                find_record_start(records@, iter.pos as int, target_delta, skipped_count as nat)
                    == find_record_start(records@, 0, target_delta, 0),
            invariant
                iter.bytes@ == records@,
                records_len == records@.len(),
                records_len <= u32::MAX - 4,
                iter.pos <= records_len,
                skipped_count * 24 <= iter.pos,
            ensures
                find_record_start(records@, 0, target_delta, 0) == (
                    starting_pos as int,
                    skipped_count as nat,
                ),
                starting_pos <= records_len,
            decreases records_len - iter.pos,
        {
            match iter.next() {
                None => {
                    starting_pos = 0;
                    break;
                },
                Some((p, record)) => {
                    if record.offset_delta == target_delta {
                        starting_pos = p;
                        break;
                    }
                    skipped_count = skipped_count + 1;
                },
            }
        }

        let sliced_records = bytes_slice(&batch.records, starting_pos, records_len);
        let sliced_len: usize = bytes_as_slice(&sliced_records).len();
        let actual_batch_length = sliced_len as u32 + 4;
        let first = RecordBatch {
            base_offset: req.fetch_offset,
            batch_length: actual_batch_length,
            records_count: batch.records_count.saturating_sub(skipped_count),
            records: sliced_records,
        };
        assert(bytes_view(first.records) =~= records@.skip(starting_pos as int));
        let mut batches: Vec<RecordBatch> = Vec::new();
        batches.push(first);

        let max = req.partition_max_bytes;
        let mut total_bytes: u32 = actual_batch_length;
        pos = pos + 12 + batch.batch_length as u64;
        let ghost more = more_batches(log@, self.size as int, pos as int, total_bytes as int, max);
        let ghost first_view = batches@[0]@;
        assert(more is Some ==> res == Some(seq![first_view] + more.unwrap()));
        assert(more is None ==> res is None);
        assert(batches_view(batches@) =~= seq![batches@[0]@]);
        while total_bytes < max
            invariant
                size == self.size,
                size_in_range(self.size as int),
                pos <= self.size + 11 + u32::MAX,
                res == fetch_result(*self, log@, index@, req.fetch_offset, req.partition_max_bytes),
                more is Some ==> res == Some(seq![first_view] + more.unwrap()),
                more is None ==> res is None,
                (more_batches(log@, self.size as int, pos as int, total_bytes as int, max) is None)
                    == (res is None),
                res is Some ==> batches_view(batches@) + more_batches(
                    log@,
                    self.size as int,
                    pos as int,
                    total_bytes as int,
                    max,
                ).unwrap() == goal,
            ensures
                res is Some,
                batches_view(batches@) == goal,
            decreases (if pos < size { size - pos } else { 0 }),
        {
            if pos + 12 > size {
                assert(batches_view(batches@) =~= goal);
                break;
            }
            if read_u32_at(log, pos + 8) < 4 {
                assert(more_batches(log@, self.size as int, pos as int, total_bytes as int, max)
                    is None);
                assert(res is None);
                return None;
            }
            let b = RecordBatch::decode_file(log, pos);
            if 12 + b.batch_length as u64 > size - pos {
                assert(batches_view(batches@) =~= goal);
                break;
            }
            if b.batch_length > u32::MAX - total_bytes {
                assert(more_batches(log@, self.size as int, pos as int, total_bytes as int, max)
                    is None);
                assert(res is None);
                return None;
            }
            let ghost old_batches = batches@;
            let ghost next = more_batches(
                log@,
                self.size as int,
                pos + 12 + b.batch_length,
                total_bytes + b.batch_length,
                max,
            );
            total_bytes = total_bytes + b.batch_length;
            pos = pos + 12 + b.batch_length as u64;
            if total_bytes <= max {
                batches.push(b);
                assert(batches_view(batches@) =~= batches_view(old_batches).push(batches@.last()@));
                assert(batches_view(batches@) + next.unwrap() =~= batches_view(old_batches) + (seq![
                    batches@.last()@,
                ] + next.unwrap()));
            }
        }
        Some(batches)
    }

    /// Serves a fetch from this segment, as `fetch_checked` does, on the
    /// inputs where reading the batches and adding up their lengths stay in
    /// range.
    pub fn fetch(&self, log: &[u8], index: &[u8], req: FetchPartition) -> (r: Vec<RecordBatch>)
        requires
            index@.len() >= 16 * self.index_count,
            size_in_range(self.size as int),
            fetch_result(*self, log@, index@, req.fetch_offset, req.partition_max_bytes) is Some,
        ensures
            batches_view(r@) == fetch_result(
                *self,
                log@,
                index@,
                req.fetch_offset,
                req.partition_max_bytes,
            ).unwrap(),
    {
        match self.fetch_checked(log, index, req) {
            Some(v) => v,
            None => {
                proof {
                    assert(false);
                }
                Vec::new()
            },
        }
    }

    /// Binary search of the index for the entry to start scanning from when
    /// looking for `target_offset`: an entry whose offset is at most the
    /// target and whose successor's is above it. `None` when there are no
    /// entries or the first is already above the target.
    pub fn find_physical_position(&self, index: &[u8], target_offset: u64) -> (r: Option<IndexEntry>)
        requires
            index@.len() >= 16 * self.index_count,
        ensures
            match index_floor(index@, self.index_count as int, target_offset) {
                None => r is None,
                Some(k) => r == Some(entry_at(index@, k)),
            },
            match r {
                None => self.index_count == 0 || entry_offset(index@, 0) > target_offset,
                Some(e) => exists|k: int|
                    is_floor_entry(index@, self.index_count as int, target_offset, k) && e
                        == entry_at(index@, k),
            },
    {
        if self.index_count == 0 {
            return None;
        }
        let count = self.index_count;
        let index_len: usize = index.len();
        let mut lo: usize = 0;
        let mut hi: usize = count - 1;
        let mut stop = false;
        while !stop && lo <= hi
            invariant
                count == self.index_count,
                index@.len() >= 16 * count,
                index_len == index@.len(),
                lo <= count,
                hi < count,
                lo <= hi + 1,
                lo > 0 ==> entry_offset(index@, lo - 1) <= target_offset,
                hi + 1 < count ==> entry_offset(index@, hi + 1) > target_offset,
                stop ==> lo == 0 && entry_offset(index@, 0) > target_offset,
                stop ==> bsearch(index@, target_offset, 0, count - 1) == 0,
                !stop ==> bsearch(index@, target_offset, lo as int, hi as int) == bsearch(
                    index@,
                    target_offset,
                    0,
                    count - 1,
                ),
            decreases hi + 1 - lo + (if stop { 0int } else { 1int }),
        {
            let mid = lo + (hi - lo) / 2;
            let base = mid * INDEX_ENTRY_SIZE;
            let offset = get_u64_be(index, base);
            assert(index@.subrange(base as int, base + 8) == index@.subrange(16 * mid, 16 * mid + 8));
            if offset <= target_offset {
                lo = mid + 1;
            } else {
                if mid == 0 {
                    stop = true;
                } else {
                    hi = mid - 1;
                }
            }
        }
        assert(bsearch(index@, target_offset, 0, count - 1) == lo) by {
            if !stop {
                assert(lo > hi);
            }
        }
        if lo == 0 {
            return None;
        }
        let entry = lo - 1;
        let base = entry * INDEX_ENTRY_SIZE;
        let offset = get_u64_be(index, base);
        let pos = get_u64_be(index, base + 8);
        let r = IndexEntry { offset, pos };
        assert(is_floor_entry(index@, count as int, target_offset, entry as int));
        assert(r == entry_at(index@, entry as int));
        Some(r)
    }

    /// Scans the log from the index entry to the position of the batch that
    /// holds `target_offset`, or says `None` where adding up the offsets
    /// would overflow.
    pub fn linear_search_checked(&self, log: &[u8], target_offset: u64, idx: IndexEntry) -> (r: Option<
        Result<u64, SegmentError>,
    >)
        requires
            size_in_range(self.size as int),
        ensures
            match scan_from(log@, self.size as int, target_offset, idx.offset as int, idx.pos as int) {
                None => r is None,
                Some(Ok(p)) => r == Some(Ok::<u64, SegmentError>(p)),
                Some(Err(_)) => r == Some(Err::<u64, SegmentError>(SegmentError::EndOfSegment)),
            },
    {
        let mut offset = idx.offset;
        let mut pos = idx.pos;
        let size = self.size as u64;

        while offset < target_offset
            invariant
                size == self.size,
                size_in_range(self.size as int),
                scan_from(log@, self.size as int, target_offset, offset as int, pos as int) == scan_from(
                    log@,
                    self.size as int,
                    target_offset,
                    idx.offset as int,
                    idx.pos as int,
                ),
            ensures
                scan_from(log@, self.size as int, target_offset, idx.offset as int, idx.pos as int)
                    == Some(Ok::<u64, ()>(pos)),
            decreases (if pos < size { size - pos } else { 0 }),
        {
            if pos >= size {
                return Some(Err(SegmentError::EndOfSegment));
            }
            let batch_length = read_u32_at(log, pos + 8);
            let records_count = read_u32_at(log, pos + 12);

            if records_count as u64 > u64::MAX - offset {
                return None;
            }
            if offset + records_count as u64 > target_offset {
                break;
            }

            pos += 12 + batch_length as u64;
            offset += records_count as u64;
        }

        Some(Ok(pos))
    }

    /// Scans the log from the index entry to the position of the batch that
    /// holds `target_offset`: `EndOfSegment` when the scan reaches the end of
    /// the segment short of it.
    pub fn linear_search(&self, log: &[u8], target_offset: u64, idx: IndexEntry) -> (r: Result<
        u64,
        SegmentError,
    >)
        requires
            size_in_range(self.size as int),
            scan_from(log@, self.size as int, target_offset, idx.offset as int, idx.pos as int)
                is Some,
        ensures
            match scan_from(log@, self.size as int, target_offset, idx.offset as int, idx.pos as int) {
                Some(Ok(p)) => r == Ok::<u64, SegmentError>(p),
                _ => r == Err::<u64, SegmentError>(SegmentError::EndOfSegment),
            },
    {
        match self.linear_search_checked(log, target_offset, idx) {
            Some(r) => r,
            None => {
                proof {
                    assert(false);
                }
                Err(SegmentError::EndOfSegment)
            },
        }
    }
}

} // verus!
