//! A batch as the segment files store it in the first storage layout.

use vstd::prelude::*;
use vstd::bytes::{spec_u64_from_le_bytes, spec_u32_from_le_bytes, u64_from_le_bytes, u32_from_le_bytes};
use bytes::Bytes;
use crate::buffer::{bytes_view, bytes_from_vec};
use crate::storage::record_batch::batch_header_bytes;
use crate::storage::record_batch::RecordBatchView;
use crate::wire::{put_u64_be, put_u32_be};

verus! {

pub struct Batch {
    pub base_offset: u64,
    /// How many bytes follow the length field: the record count and records.
    pub batch_length: u32,
    pub records_count: u32,
    pub records: Bytes,
}

/// The header fields as a file holds them: little-endian base offset, batch
/// length and record count in the first 16 bytes.
pub open spec fn file_header_fields(h: Seq<u8>) -> (u64, u32, u32) {
    (
        spec_u64_from_le_bytes(h.subrange(0, 8)),
        spec_u32_from_le_bytes(h.subrange(8, 12)),
        spec_u32_from_le_bytes(h.subrange(12, 16)),
    )
}

impl Batch {
    /// The 16 header bytes: base offset, batch length and record count,
    /// each big-endian.
    pub fn encode_header(&self) -> (r: Bytes)
        ensures
            bytes_view(r) == batch_header_bytes(
                RecordBatchView {
                    base_offset: self.base_offset,
                    batch_length: self.batch_length,
                    records_count: self.records_count,
                    records: bytes_view(self.records),
                },
            ),
    {
        let mut buf: Vec<u8> = Vec::new();
        put_u64_be(&mut buf, self.base_offset);
        put_u32_be(&mut buf, self.batch_length);
        put_u32_be(&mut buf, self.records_count);
        bytes_from_vec(buf)
    }

    /// How many record bytes follow a header that declares `batch_length`.
    pub fn records_len(batch_length: u32) -> (r: usize)
        requires
            batch_length >= 4,
        ensures
            r == batch_length - 4,
    {
        batch_length as usize - 4
    }

    /// The fields of the 16-byte header that a segment file holds at a
    /// batch's position.
    pub fn decode_header(header: &[u8]) -> (r: (u64, u32, u32))
        requires
            header@.len() >= 16,
        ensures
            r == file_header_fields(header@),
    {
        let base_offset = u64_from_le_bytes(&header[0..8]);
        let batch_length = u32_from_le_bytes(&header[8..12]);
        let records_count = u32_from_le_bytes(&header[12..16]);
        (base_offset, batch_length, records_count)
    }

    /// A batch from its file header and the records read after it.
    pub fn decode(header: &[u8], records: Bytes) -> (r: Self)
        requires
            header@.len() >= 16,
        ensures
            (r.base_offset, r.batch_length, r.records_count) == file_header_fields(header@),
            bytes_view(r.records) == bytes_view(records),
    {
        let (base_offset, batch_length, records_count) = Self::decode_header(header);
        Self { base_offset, batch_length, records_count, records }
    }
}

} // verus!
