//! A record inside a batch: offset delta from the batch's base offset, a
//! timestamp, a key and a value. The layout is that of `crate::record`.

use vstd::prelude::*;
use vstd::bytes::*;
use vstd::slice::slice_to_vec;
use crate::buffer::unix_time_secs;
use crate::record::{record_bytes, record_decodable, declared_key_len, declared_value_len, decode_record_fields};

verus! {

#[derive(PartialEq, Eq, Debug, Clone)]
pub struct Record {
    pub offset_delta: u64,
    pub timestamp: u64,
    pub key: Vec<u8>,
    pub value: Vec<u8>,
}

/// Why a record could not be read.
#[derive(Debug, PartialEq, Eq)]
pub enum RecordError {
    /// The buffer ends before the record does.
    UnexpectedEof,
}

/// Bytes of the record's encoding.
pub open spec fn record_encoded_len(s: Seq<u8>) -> int {
    24 + declared_key_len(s) + declared_value_len(s)
}

impl Record {
    /// A record at the given offset delta, stamped with the current time in
    /// seconds since the Unix epoch (0 when the clock reads before the epoch).
    pub fn new(offset_delta: u64, key: &[u8], value: &[u8]) -> (r: Self)
        ensures
            r.offset_delta == offset_delta,
            r.key@ == key@,
            r.value@ == value@,
    {
        Self {
            offset_delta,
            timestamp: match unix_time_secs() {
                Some(secs) => secs,
                None => 0,
            },
            key: slice_to_vec(key),
            value: slice_to_vec(value),
        }
    }

    /// The record's bytes.
    pub fn encode(&self) -> (r: Vec<u8>)
        requires
            24 + self.key@.len() + self.value@.len() <= usize::MAX,
        ensures
            r@ == record_bytes(self.offset_delta, self.timestamp, self.key@, self.value@),
    {
        let mut buf: Vec<u8> = Vec::new();
        let temp = u64_to_le_bytes(self.offset_delta);
        buf.extend_from_slice(&temp);
        let temp = u64_to_le_bytes(self.timestamp);
        buf.extend_from_slice(&temp);
        let temp = u32_to_le_bytes(self.key.len() as u32);
        buf.extend_from_slice(&temp);
        buf.extend_from_slice(&self.key);
        let temp = u32_to_le_bytes(self.value.len() as u32);
        buf.extend_from_slice(&temp);
        buf.extend_from_slice(&self.value);
        assert(buf@ =~= record_bytes(self.offset_delta, self.timestamp, self.key@, self.value@));
        buf
    }

    /// Reads the record at the start of `buf` and how many bytes it took;
    /// fails exactly when the buffer ends before the record.
    pub fn decode_raw(buf: &[u8]) -> (r: Result<(Record, usize), RecordError>)
        ensures
            r is Err <==> !record_decodable(buf@),
            r matches Ok((rec, n)) ==> {
                &&& n == record_encoded_len(buf@)
                &&& rec.offset_delta == decode_record_fields(buf@).0
                &&& rec.timestamp == decode_record_fields(buf@).1
                &&& rec.key@ == decode_record_fields(buf@).2
                &&& rec.value@ == decode_record_fields(buf@).3
            },
    {
        let len: usize = buf.len();
        if len < 20 {
            return Err(RecordError::UnexpectedEof);
        }
        let offset_delta = u64_from_le_bytes(&buf[0..8]);
        let timestamp = u64_from_le_bytes(&buf[8..16]);
        let key_size = u32_from_le_bytes(&buf[16..20]) as usize;
        assert(key_size == declared_key_len(buf@));
        if len < 24 || key_size > len - 24 {
            return Err(RecordError::UnexpectedEof);
        }
        let key = slice_to_vec(&buf[20..20 + key_size]);
        let value_size = u32_from_le_bytes(&buf[20 + key_size..24 + key_size]) as usize;
        assert(value_size == declared_value_len(buf@));
        if value_size > len - 24 - key_size {
            return Err(RecordError::UnexpectedEof);
        }
        let value = slice_to_vec(&buf[24 + key_size..24 + key_size + value_size]);
        Ok((Record { offset_delta, timestamp, key, value }, 24 + key_size + value_size))
    }
}

} // verus!
