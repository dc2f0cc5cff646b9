//! A single record: an optional offset, a timestamp, a key and a value,
//! laid out little-endian with 32-bit lengths before key and value.

use vstd::prelude::*;
use vstd::bytes::*;
use vstd::slice::slice_to_vec;
use crate::buffer::unix_time_secs;

verus! {

broadcast use vstd::seq_lib::group_seq_properties;

#[derive(PartialEq, Eq, Debug)]
pub struct Record {
    pub offset: Option<u64>,
    pub timestamp: u64,
    pub key: Vec<u8>,
    pub value: Vec<u8>,
}

/// The encoding of a record with the given fields: offset and timestamp as
/// 8 little-endian bytes each, then the key and the value, each after its
/// length as 4 little-endian bytes (the length taken modulo 2^32).
pub open spec fn record_bytes(offset: u64, timestamp: u64, key: Seq<u8>, value: Seq<u8>) -> Seq<u8> {
    spec_u64_to_le_bytes(offset) + spec_u64_to_le_bytes(timestamp) + spec_u32_to_le_bytes(
        key.len() as u32,
    ) + key + spec_u32_to_le_bytes(value.len() as u32) + value
}

/// The key length that a buffer declares at bytes 16..20.
pub open spec fn declared_key_len(s: Seq<u8>) -> int {
    spec_u32_from_le_bytes(s.subrange(16, 20)) as int
}

/// The value length that a buffer declares after its key.
pub open spec fn declared_value_len(s: Seq<u8>) -> int {
    let k = declared_key_len(s);
    spec_u32_from_le_bytes(s.subrange(20 + k, 24 + k)) as int
}

/// The buffer is long enough for every field that decoding reads.
pub open spec fn record_decodable(s: Seq<u8>) -> bool {
    &&& 20 <= s.len()
    &&& 24 + declared_key_len(s) <= s.len()
    &&& 24 + declared_key_len(s) + declared_value_len(s) <= s.len()
}

/// The fields that decoding reads from a buffer: offset, timestamp, key, value.
pub open spec fn decode_record_fields(s: Seq<u8>) -> (u64, u64, Seq<u8>, Seq<u8>) {
    let k = declared_key_len(s);
    let v = declared_value_len(s);
    (
        spec_u64_from_le_bytes(s.subrange(0, 8)),
        spec_u64_from_le_bytes(s.subrange(8, 16)),
        s.subrange(20, 20 + k),
        s.subrange(24 + k, 24 + k + v),
    )
}

/// Decoding the encoding of a record gives back its fields, as long as key
/// and value are shorter than 2^32 bytes.
pub proof fn lemma_record_roundtrip(offset: u64, timestamp: u64, key: Seq<u8>, value: Seq<u8>)
    requires
        key.len() < 0x1_0000_0000,
        value.len() < 0x1_0000_0000,
    ensures
        record_decodable(record_bytes(offset, timestamp, key, value)),
        decode_record_fields(record_bytes(offset, timestamp, key, value)) == (
            offset,
            timestamp,
            key,
            value,
        ),
{
    lemma_auto_spec_u64_to_from_le_bytes();
    lemma_auto_spec_u32_to_from_le_bytes();
    let s = record_bytes(offset, timestamp, key, value);
    let k = key.len() as int;
    let v = value.len() as int;
    let a = spec_u64_to_le_bytes(offset);
    let b = spec_u64_to_le_bytes(timestamp);
    let c = spec_u32_to_le_bytes(key.len() as u32);
    let d = spec_u32_to_le_bytes(value.len() as u32);
    assert(s.len() == 24 + k + v);
    assert(s.subrange(0, 8) =~= a);
    assert(s.subrange(8, 16) =~= b);
    assert(s.subrange(16, 20) =~= c);
    assert(declared_key_len(s) == k);
    assert(s.subrange(20, 20 + k) =~= key);
    assert(s.subrange(20 + k, 24 + k) =~= d);
    assert(declared_value_len(s) == v);
    assert(s.subrange(24 + k, 24 + k + v) =~= value);
}

impl Record {
    /// A record with no offset yet, stamped with the current time in seconds
    /// since the Unix epoch (0 when the clock reads before the epoch).
    pub fn new(key: &[u8], value: &[u8]) -> (r: Self)
        ensures
            r.offset is None,
            r.key@ == key@,
            r.value@ == value@,
    {
        Self {
            offset: None,
            timestamp: match unix_time_secs() {
                Some(secs) => secs,
                None => 0,
            },
            key: slice_to_vec(key),
            value: slice_to_vec(value),
        }
    }

    /// Assigns the record its offset.
    pub fn add_offset(&mut self, offset: u64)
        ensures
            final(self).offset == Some(offset),
            final(self).timestamp == old(self).timestamp,
            final(self).key == old(self).key,
            final(self).value == old(self).value,
    {
        self.offset = Some(offset);
    }

    /// The record's bytes. The offset must have been assigned.
    pub fn encode(&self) -> (r: Vec<u8>)
        requires
            self.offset is Some,
            24 + self.key@.len() + self.value@.len() <= usize::MAX,
        ensures
            r@ == record_bytes(self.offset.unwrap(), self.timestamp, self.key@, self.value@),
    {
        let mut buf = Vec::with_capacity(1 << 12);
        let _ = self.write_to(&mut buf);
        buf
    }

    /// Reads a record from the start of `buf`; the offset read is assigned.
    pub fn decode(buf: &[u8]) -> (r: Result<Self, std::io::Error>)
        requires
            record_decodable(buf@),
        ensures
            r matches Ok(rec) && rec.offset == Some(decode_record_fields(buf@).0)
                && rec.timestamp == decode_record_fields(buf@).1 && rec.key@ == decode_record_fields(
                buf@,
            ).2 && rec.value@ == decode_record_fields(buf@).3,
    {
        let len: usize = buf.len();
        let mut pos: usize = 0;

        let offset = u64_from_le_bytes(&buf[pos..pos + 8]);
        pos += 8;

        let timestamp = u64_from_le_bytes(&buf[pos..pos + 8]);
        pos += 8;

        let key_size = u32_from_le_bytes(&buf[pos..pos + 4]) as usize;
        assert(key_size == declared_key_len(buf@));
        pos += 4;

        let key = slice_to_vec(&buf[pos..pos + key_size]);
        pos += key_size;

        let value_size = u32_from_le_bytes(&buf[pos..pos + 4]) as usize;
        assert(value_size == declared_value_len(buf@));
        pos += 4;

        let value = slice_to_vec(&buf[pos..pos + value_size]);

        Ok(Record { offset: Some(offset), timestamp, key, value })
    }

    /// Appends the record's bytes to `writer` and returns how many were written.
    pub fn write_to(&self, writer: &mut Vec<u8>) -> (r: Result<usize, std::io::Error>)
        requires
            self.offset is Some,
            24 + self.key@.len() + self.value@.len() <= usize::MAX,
        ensures
            final(writer)@ == old(writer)@ + record_bytes(
                self.offset.unwrap(),
                self.timestamp,
                self.key@,
                self.value@,
            ),
            r == Ok::<usize, std::io::Error>((24 + self.key@.len() + self.value@.len()) as usize),
    {
        let mut size: usize = 0;

        let temp = u64_to_le_bytes(self.offset.unwrap());
        writer.extend_from_slice(&temp);
        size += temp.len();

        let temp = u64_to_le_bytes(self.timestamp);
        writer.extend_from_slice(&temp);
        size += temp.len();

        let temp = u32_to_le_bytes(self.key.len() as u32);
        writer.extend_from_slice(&temp);
        size += temp.len();
        writer.extend_from_slice(&self.key);
        size += self.key.len();

        let temp = u32_to_le_bytes(self.value.len() as u32);
        writer.extend_from_slice(&temp);
        size += temp.len();
        writer.extend_from_slice(&self.value);
        size += self.value.len();

        assert(writer@ =~= old(writer)@ + record_bytes(
            self.offset.unwrap(),
            self.timestamp,
            self.key@,
            self.value@,
        ));
        Ok(size)
    }
}

} // verus!
