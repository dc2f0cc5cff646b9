//! A batch of records as it travels on the wire and lies in a segment: a
//! 16-byte big-endian header (base offset, batch length, record count)
//! followed by the encoded records. The batch length counts the bytes after
//! the length field: the 4 of the record count plus the records.

use vstd::prelude::*;
use vstd::slice::slice_to_vec;
use bytes::Bytes;
use crate::buffer::{bytes_view, bytes_from_vec, bytes_as_slice};
use crate::wire::{read_u32, read_u64, read_u32_at, read_u64_at, read_or_zero, bytes_or_zero, u64_be, u32_be, be_u64, be_u32, get_u64_be, get_u32_be, put_u64_be, put_u32_be, lemma_u64_be_roundtrip, lemma_u32_be_roundtrip};

verus! {

/// Bytes before the batch length's span starts: base offset and length field.
pub const BATCH_HEADER_PREFIX: usize = 12;

/// Bytes of the encoded header.
pub const BATCH_HEADER_SIZE: usize = 16;

#[derive(Debug)]
pub struct RecordBatch {
    pub base_offset: u64,
    pub batch_length: u32,
    pub records_count: u32,
    pub records: Bytes,
}

/// A batch as plain values.
pub struct RecordBatchView {
    pub base_offset: u64,
    pub batch_length: u32,
    pub records_count: u32,
    pub records: Seq<u8>,
}

impl View for RecordBatch {
    type V = RecordBatchView;

    open spec fn view(&self) -> RecordBatchView {
        RecordBatchView {
            base_offset: self.base_offset,
            batch_length: self.batch_length,
            records_count: self.records_count,
            records: bytes_view(self.records),
        }
    }
}

/// The 16 header bytes of a batch.
pub open spec fn batch_header_bytes(b: RecordBatchView) -> Seq<u8> {
    u64_be(b.base_offset) + u32_be(b.batch_length) + u32_be(b.records_count)
}

/// The length field agrees with the records that the batch holds.
pub open spec fn batch_consistent(b: RecordBatchView) -> bool {
    b.batch_length == 4 + b.records.len()
}

/// The batch length that the header at `pos` declares.
pub open spec fn declared_batch_length(s: Seq<u8>, pos: int) -> int {
    be_u32(s.subrange(pos + 8, pos + 12)) as int
}

/// A whole batch can be read at `pos`: the header fits, and the length it
/// declares covers the record count and stays inside the buffer.
pub open spec fn batch_decodable(s: Seq<u8>, pos: int) -> bool {
    &&& 0 <= pos
    &&& pos + 16 <= s.len()
    &&& 4 <= declared_batch_length(s, pos)
    &&& pos + 12 + declared_batch_length(s, pos) <= s.len()
}

/// The batch read at `pos`.
pub open spec fn decode_batch(s: Seq<u8>, pos: int) -> RecordBatchView {
    RecordBatchView {
        base_offset: be_u64(s.subrange(pos, pos + 8)),
        batch_length: be_u32(s.subrange(pos + 8, pos + 12)),
        records_count: be_u32(s.subrange(pos + 12, pos + 16)),
        records: s.subrange(pos + 16, pos + 12 + declared_batch_length(s, pos)),
    }
}

/// Reading a consistent batch back from its header and records gives the
/// batch, wherever the bytes stand in a buffer.
pub proof fn lemma_batch_roundtrip(s: Seq<u8>, pos: int, b: RecordBatchView)
    requires
        batch_consistent(b),
        0 <= pos,
        pos + 16 + b.records.len() <= s.len(),
        s.subrange(pos, pos + 16 + b.records.len()) == batch_header_bytes(b) + b.records,
    ensures
        batch_decodable(s, pos),
        decode_batch(s, pos) == b,
{
    lemma_u64_be_roundtrip(b.base_offset);
    lemma_u32_be_roundtrip(b.batch_length);
    lemma_u32_be_roundtrip(b.records_count);
    let w = batch_header_bytes(b) + b.records;
    assert(s.subrange(pos, pos + 8) =~= w.subrange(0, 8));
    assert(w.subrange(0, 8) =~= u64_be(b.base_offset));
    assert(s.subrange(pos + 8, pos + 12) =~= w.subrange(8, 12));
    assert(w.subrange(8, 12) =~= u32_be(b.batch_length));
    assert(s.subrange(pos + 12, pos + 16) =~= w.subrange(12, 16));
    assert(w.subrange(12, 16) =~= u32_be(b.records_count));
    assert(s.subrange(pos + 16, pos + 16 + b.records.len()) =~= w.subrange(16, w.len() as int));
    assert(w.subrange(16, w.len() as int) =~= b.records);
}

/// The batch that a file holds at `pos`, read as the file's reads see it:
/// past the end of the file every byte reads as 0.
pub open spec fn decode_batch_from_file(log: Seq<u8>, pos: int) -> RecordBatchView {
    let batch_length = read_u32(log, pos + 8);
    RecordBatchView {
        base_offset: read_u64(log, pos),
        batch_length,
        records_count: read_u32(log, pos + 12),
        records: bytes_or_zero(log, pos + 16, (batch_length - 4) as nat),
    }
}

impl RecordBatch {
    /// Reads the batch at `pos` of a segment file: the 16-byte header, then
    /// the records that its length announces.
    pub fn decode_file(log: &[u8], pos: u64) -> (r: RecordBatch)
        requires
            pos + 16 <= u64::MAX,
            read_u32(log@, pos + 8) >= 4,
        ensures
            r@ == decode_batch_from_file(log@, pos as int),
    {
        let base_offset = read_u64_at(log, pos);
        let batch_length = read_u32_at(log, pos + 8);
        let records_count = read_u32_at(log, pos + 12);
        let records = read_or_zero(log, pos + 16, batch_length as usize - 4);
        RecordBatch { base_offset, batch_length, records_count, records: bytes_from_vec(records) }
    }

    /// The 16 header bytes: base offset, batch length and record count,
    /// each big-endian.
    pub fn encode_header(&self) -> (r: Vec<u8>)
        ensures
            r@ == batch_header_bytes(self@),
            r@.len() == 16,
    {
        let mut buf: Vec<u8> = Vec::new();
        put_u64_be(&mut buf, self.base_offset);
        put_u32_be(&mut buf, self.batch_length);
        put_u32_be(&mut buf, self.records_count);
        assert(buf@ =~= batch_header_bytes(self@));
        buf
    }

    /// Reads the batch whose header starts at `pos`; the records are copied.
    pub fn decode(buf: &[u8], pos: usize) -> (r: RecordBatch)
        requires
            batch_decodable(buf@, pos as int),
        ensures
            r@ == decode_batch(buf@, pos as int),
    {
        let available: usize = buf.len();
        assert(pos + 16 <= available);
        let base_offset = get_u64_be(buf, pos);
        let batch_length = get_u32_be(buf, pos + 8);
        let records_count = get_u32_be(buf, pos + 12);
        let end = pos + BATCH_HEADER_PREFIX + batch_length as usize;
        let records = bytes_from_vec(slice_to_vec(&buf[pos + BATCH_HEADER_SIZE..end]));
        RecordBatch { base_offset, batch_length, records_count, records }
    }

    /// Bytes the batch takes on the wire: header and records.
    pub fn get_size(&self) -> (r: u32)
        requires
            16 + bytes_view(self.records).len() <= u32::MAX,
        ensures
            r == 16 + bytes_view(self.records).len(),
    {
        let records = bytes_as_slice(&self.records);
        16 + records.len() as u32
    }

    /// Gives the batch a new base offset.
    pub fn update_base_offset(&mut self, base_offset: u64)
        ensures
            final(self)@ == (RecordBatchView { base_offset, ..old(self)@ }),
    {
        self.base_offset = base_offset;
    }
}

} // verus!
