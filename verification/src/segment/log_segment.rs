//! The active segment of a partition's log: how many bytes it holds, the
//! index entries it has written into its memory-mapped index files, and
//! when the next entry is due. The log file itself is read and written by
//! the caller; this type keeps the account of it.

use vstd::prelude::*;
use memmap::MmapMut;
use crate::mapped::{mmap_bytes, mmap_len, mmap_as_slice, mmap_copy_from};
use crate::segment::config::{SegmentConfig, index_entries, index_file_size, index_sizable};
use crate::segment::metadata::{SegmentView, INDEX_ENTRY_SIZE};
use crate::storage::record_batch::{RecordBatch, BATCH_HEADER_PREFIX};
use crate::segment::metadata::{size_in_range, SegmentError};
use crate::wire::{u64_be, put_u64_be, read_u32, read_u32_at};

verus! {

pub struct LogSegment {
    /// The view last published.
    pub segment: SegmentView,
    pub index_file: MmapMut,
    pub time_index_file: MmapMut,
    /// Where the next index entry goes, in bytes.
    pub index_write_pos: usize,
    /// Log bytes appended so far.
    pub size: usize,
    pub index_count: usize,
    /// Log bytes appended since the last index entry.
    pub bytes_since_last_index: usize,
    /// Log bytes after which the next append writes an index entry.
    pub index_threshold_bytes: usize,
}

/// `s` with the bytes from `pos` replaced by `w`.
pub open spec fn splice(s: Seq<u8>, pos: int, w: Seq<u8>) -> Seq<u8> {
    s.subrange(0, pos) + w + s.subrange(pos + w.len(), s.len() as int)
}

/// Entry `i` of an index file is all zero bytes.
pub open spec fn entry_blank(index: Seq<u8>, i: int) -> bool {
    forall|j: int| 0 <= j < 16 ==> #[trigger] index[16 * i + j] == 0
}

/// How many entries an index file held when its segment was last written:
/// the entries up to the first blank one after the first, or all `max`.
pub open spec fn recovered_count(index: Seq<u8>, i: int, max: int) -> int
    decreases max - i,
{
    if i >= max {
        max
    } else if i > 0 && entry_blank(index, i) {
        i
    } else {
        recovered_count(index, i + 1, max)
    }
}

proof fn lemma_recovered_count_bounds(index: Seq<u8>, i: int, max: int)
    requires
        0 <= i <= max,
    ensures
        i <= recovered_count(index, i, max) <= max,
    decreases max - i,
{
    if i < max && !(i > 0 && entry_blank(index, i)) {
        lemma_recovered_count_bounds(index, i + 1, max);
    }
}

/// An append writes an index entry when enough bytes have gone by since
/// the last one and the index file has room for another.
pub open spec fn writes_index_entry(seg: LogSegment, batch_length: u32) -> bool {
    &&& seg.bytes_since_last_index + 12 + batch_length >= seg.index_threshold_bytes
    &&& seg.index_write_pos + 16 <= mmap_bytes(seg.index_file).len()
}

/// The records that the batches of a log hold from `pos` to `end`, read
/// header after header, up to `end` or to a header that `end` cuts short.
pub open spec fn counted_records(log: Seq<u8>, pos: int, end: int) -> int
    decreases (if pos < end { end - pos } else { 0 }),
{
    if pos >= end || pos + 16 > end {
        0
    } else {
        read_u32(log, pos + 12) + counted_records(log, pos + 12 + read_u32(log, pos + 8), end)
    }
}

proof fn lemma_counted_records_nonneg(log: Seq<u8>, pos: int, end: int)
    ensures
        counted_records(log, pos, end) >= 0,
    decreases (if pos < end { end - pos } else { 0 }),
{
    if !(pos >= end || pos + 16 > end) {
        lemma_counted_records_nonneg(log, pos + 12 + read_u32(log, pos + 8), end);
    }
}

/// Reading the headers from `pos` meets one that `end` cuts short.
pub open spec fn log_cut_short(log: Seq<u8>, pos: int, end: int) -> bool
    decreases (if pos < end { end - pos } else { 0 }),
{
    if pos >= end {
        false
    } else if pos + 16 > end {
        true
    } else {
        log_cut_short(log, pos + 12 + read_u32(log, pos + 8), end)
    }
}

/// `new` is `old` after accounting for a batch with this base offset and
/// length written at `log_pos`: the segment grows by the batch's header
/// prefix and length; when an index entry is due and fits, the index gets
/// (base offset, `log_pos`) and the time index (base offset, base offset) at
/// the next entry, both big-endian, the count grows by one and the bytes
/// since the last entry start over; otherwise only those bytes grow.
pub open spec fn accounted(old: LogSegment, new: LogSegment, base_offset: u64, batch_length: u32, log_pos: u64) -> bool {
    &&& new.index_threshold_bytes == old.index_threshold_bytes
    &&& new.size == old.size + 12 + batch_length
    &&& writes_index_entry(old, batch_length) ==> {
        &&& new.index_count == old.index_count + 1
        &&& new.index_write_pos == old.index_write_pos + 16
        &&& new.bytes_since_last_index == 0
        &&& mmap_bytes(new.index_file) == splice(
            mmap_bytes(old.index_file),
            old.index_write_pos as int,
            u64_be(base_offset) + u64_be(log_pos),
        )
        &&& mmap_bytes(new.time_index_file) == splice(
            mmap_bytes(old.time_index_file),
            old.index_write_pos as int,
            u64_be(base_offset) + u64_be(base_offset),
        )
    }
    &&& !writes_index_entry(old, batch_length) ==> {
        &&& new.index_count == old.index_count
        &&& new.index_write_pos == old.index_write_pos
        &&& new.bytes_since_last_index == old.bytes_since_last_index + 12 + batch_length
        &&& mmap_bytes(new.index_file) == mmap_bytes(old.index_file)
        &&& mmap_bytes(new.time_index_file) == mmap_bytes(old.time_index_file)
    }
}

/// Reads whether entry `i` of the index is all zero bytes.
fn entry_is_blank(index: &[u8], i: usize) -> (r: bool)
    requires
        16 * i + 16 <= index@.len(),
    ensures
        r == entry_blank(index@, i as int),
{
    let len: usize = index.len();
    assert(16 * i + 16 <= len);
    let base = i * INDEX_ENTRY_SIZE;
    let mut j: usize = 0;
    while j < 16
        invariant
            base == 16 * i,
            base + 16 <= index@.len(),
            j <= 16,
            forall|k: int| 0 <= k < j ==> #[trigger] index@[16 * i + k] == 0,
        decreases 16 - j,
    {
        if index[base + j] != 0 {
            assert(index@[16 * i + j] != 0);
            return false;
        }
        j = j + 1;
    }
    true
}

impl LogSegment {
    /// The segment's account is consistent: entries are written one after
    /// another from the start of the index, which has room for them, and
    /// both index files have the same size.
    pub open spec fn wf(self) -> bool {
        &&& self.index_write_pos == 16 * self.index_count
        &&& self.index_write_pos <= mmap_bytes(self.index_file).len()
        &&& mmap_bytes(self.time_index_file).len() == mmap_bytes(self.index_file).len()
    }

    /// Takes over a segment whose index files are mapped: a log of
    /// `existing_size` bytes is resumed, its index entries counted up to
    /// the first blank one; an empty log starts afresh, due for an index
    /// entry with its first append. The published view starts empty.
    pub fn open(opts: &SegmentConfig, existing_size: usize, index_file: MmapMut, time_index_file: MmapMut) -> (r: Self)
        requires
            index_sizable(*opts),
            mmap_bytes(index_file).len() == index_file_size(*opts),
            mmap_bytes(time_index_file).len() == index_file_size(*opts),
        ensures
            r.wf(),
            r.segment == (SegmentView { base_offset: opts.base_offset, index_count: 0, size: 0 }),
            mmap_bytes(r.index_file) == mmap_bytes(index_file),
            mmap_bytes(r.time_index_file) == mmap_bytes(time_index_file),
            r.index_threshold_bytes == opts.index_interval_bytes,
            existing_size == 0 ==> {
                &&& r.index_count == 0
                &&& r.size == 0
                &&& r.bytes_since_last_index == opts.index_interval_bytes
            },
            existing_size != 0 ==> {
                &&& r.index_count == recovered_count(mmap_bytes(index_file), 0, index_entries(*opts))
                &&& r.size == existing_size
                &&& r.bytes_since_last_index == 0
            },
    {
        let max_entries = opts.max_index_entries();
        let fresh = existing_size == 0;
        let index = mmap_as_slice(&index_file);
        let (index_count, size, bytes_since_last_index) = if fresh {
            (0, 0, opts.index_interval_bytes)
        } else {
            let mut count: usize = 0;
            let mut i: usize = 0;
            while i < max_entries
                invariant
                    index@ == mmap_bytes(index_file),
                    index@.len() == 16 * max_entries,
                    i <= max_entries,
                    count == i,
                    recovered_count(index@, i as int, max_entries as int) == recovered_count(
                        index@,
                        0,
                        max_entries as int,
                    ),
                ensures
                    count == recovered_count(index@, 0, max_entries as int),
                decreases max_entries - i,
            {
                if i > 0 && entry_is_blank(index, i) {
                    break;
                }
                count = count + 1;
                i = i + 1;
            }
            (count, existing_size, 0)
        };
        proof {
            lemma_recovered_count_bounds(mmap_bytes(index_file), 0, max_entries as int);
        }
        let index_write_pos = index_count * INDEX_ENTRY_SIZE;
        LogSegment {
            segment: SegmentView::new(opts.base_offset),
            index_file,
            time_index_file,
            index_write_pos,
            size,
            index_count,
            bytes_since_last_index,
            index_threshold_bytes: opts.index_interval_bytes,
        }
    }

    /// Accounts for a batch that the caller has just written to the end of
    /// the log file, whose length before the write was `log_pos`. The
    /// segment grows by the batch's header prefix and length; when an index
    /// entry is due and fits, the index gets (base offset, `log_pos`), the
    /// time index (base offset, base offset), both big-endian.
    pub fn append_batch(&mut self, batch: &RecordBatch, log_pos: u64)
        requires
            old(self).wf(),
            old(self).bytes_since_last_index + 12 + batch.batch_length <= usize::MAX,
            old(self).size + 12 + batch.batch_length <= usize::MAX,
        ensures
            final(self).wf(),
            final(self).segment == old(self).segment,
            accounted(*old(self), *final(self), batch.base_offset, batch.batch_length, log_pos),
    {
        let batch_on_disk = BATCH_HEADER_PREFIX + batch.batch_length as usize;
        self.bytes_since_last_index = self.bytes_since_last_index + batch_on_disk;
        let index_len = mmap_len(&self.index_file);
        if self.bytes_since_last_index >= self.index_threshold_bytes && index_len - self.index_write_pos
            >= INDEX_ENTRY_SIZE {
            let pos = self.index_write_pos;
            let ghost index0 = mmap_bytes(self.index_file);
            let ghost time0 = mmap_bytes(self.time_index_file);
            let mut base_be: Vec<u8> = Vec::new();
            put_u64_be(&mut base_be, batch.base_offset);
            let mut log_pos_be: Vec<u8> = Vec::new();
            put_u64_be(&mut log_pos_be, log_pos);

            mmap_copy_from(&mut self.index_file, pos, base_be.as_slice());
            mmap_copy_from(&mut self.index_file, pos + 8, log_pos_be.as_slice());
            assert(mmap_bytes(self.index_file) =~= splice(
                index0,
                pos as int,
                u64_be(batch.base_offset) + u64_be(log_pos),
            ));

            mmap_copy_from(&mut self.time_index_file, pos, base_be.as_slice());
            mmap_copy_from(&mut self.time_index_file, pos + 8, base_be.as_slice());
            assert(mmap_bytes(self.time_index_file) =~= splice(
                time0,
                pos as int,
                u64_be(batch.base_offset) + u64_be(batch.base_offset),
            ));

            self.index_write_pos = self.index_write_pos + INDEX_ENTRY_SIZE;
            self.index_count = self.index_count + 1;
            self.bytes_since_last_index = 0;
        }
        self.size = self.size + batch_on_disk;
    }

    /// How many records the segment's log holds, `log` being the log
    /// file's content: the record counts of its batches summed. Fails where a
    /// batch header is cut short by the segment's end.
    pub fn records_count(&self, log: &[u8]) -> (r: Result<u64, SegmentError>)
        requires
            size_in_range(self.size as int),
            counted_records(log@, 0, self.size as int) <= u64::MAX,
        ensures
            log_cut_short(log@, 0, self.size as int) ==> r == Err::<u64, SegmentError>(
                SegmentError::TruncatedBatch,
            ),
            !log_cut_short(log@, 0, self.size as int) ==> (r matches Ok(n) && n == counted_records(
                log@,
                0,
                self.size as int,
            )),
    {
        let end = self.size as u64;
        let mut pos: u64 = 0;
        let mut total: u64 = 0;
        while pos < end
            invariant
                end == self.size,
                size_in_range(self.size as int),
                counted_records(log@, 0, end as int) <= u64::MAX,
                total + counted_records(log@, pos as int, end as int) == counted_records(log@, 0, end as int),
                log_cut_short(log@, pos as int, end as int) == log_cut_short(log@, 0, end as int),
            decreases (if pos < end { end - pos } else { 0 }),
        {
            if end - pos < 16 {
                return Err(SegmentError::TruncatedBatch);
            }
            let batch_length = read_u32_at(log, pos + 8);
            let records_count = read_u32_at(log, pos + 12);
            assert(counted_records(log@, pos as int, end as int) == records_count + counted_records(
                log@,
                pos + 12 + batch_length,
                end as int,
            ));
            assert(log_cut_short(log@, pos as int, end as int) == log_cut_short(
                log@,
                pos + 12 + batch_length,
                end as int,
            ));
            proof {
                lemma_counted_records_nonneg(log@, pos + 12 + batch_length, end as int);
            }
            pos = pos + 12 + batch_length as u64;
            total = total + records_count as u64;
        }
        Ok(total)
    }

    /// Publishes the segment as it stands: a view with the current index
    /// count and size, kept as the published one and returned.
    pub fn publish(&mut self) -> (r: SegmentView)
        ensures
            r == (SegmentView {
                base_offset: old(self).segment.base_offset,
                index_count: old(self).index_count,
                size: old(self).size,
            }),
            final(self).segment == r,
            final(self).index_count == old(self).index_count,
            final(self).size == old(self).size,
            final(self).index_write_pos == old(self).index_write_pos,
            final(self).bytes_since_last_index == old(self).bytes_since_last_index,
            final(self).index_threshold_bytes == old(self).index_threshold_bytes,
            mmap_bytes(final(self).index_file) == mmap_bytes(old(self).index_file),
            mmap_bytes(final(self).time_index_file) == mmap_bytes(old(self).time_index_file),
    {
        let new = self.segment.with_metadata(self.index_count, self.size);
        self.segment = new;
        new
    }
}

} // verus!
