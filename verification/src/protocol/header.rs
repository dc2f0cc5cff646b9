//! The request header: which API, its version, a correlation id that the
//! response echoes, and an optional client id.

use vstd::prelude::*;
use vstd::std_specs::convert::{FromSpecImpl, TryFromSpecImpl};
use vstd::utf8::encode_utf8;
use crate::protocol::produce::byte_len;
use crate::wire::{u16_be, u32_be};

verus! {

#[derive(Debug, Clone)]
pub struct RequestHeader {
    pub api_key: ApiKey,
    pub api_version: u32,
    pub correlation_id: u32,
    pub client_id: Option<String>,
}

/// A header as plain values.
pub struct RequestHeaderView {
    pub api_key: ApiKey,
    pub api_version: u32,
    pub correlation_id: u32,
    pub client_id: Option<Seq<char>>,
}

impl View for RequestHeader {
    type V = RequestHeaderView;

    open spec fn view(&self) -> RequestHeaderView {
        RequestHeaderView {
            api_key: self.api_key,
            api_version: self.api_version,
            correlation_id: self.correlation_id,
            client_id: match self.client_id {
                Some(c) => Some(c@),
                None => None,
            },
        }
    }
}

/// The client id on the wire: its byte length as a 16-bit two's-complement
/// value (the length taken modulo 2^16) and its UTF-8 bytes, or the length
/// -1 and nothing when there is none.
pub open spec fn client_id_bytes(c: Option<Seq<char>>) -> Seq<u8> {
    match c {
        Some(s) => u16_be(byte_len(s) as u16) + encode_utf8(s),
        None => u16_be(0xffff),
    }
}

/// The header on the wire: API code, version and correlation id as 4
/// big-endian bytes each, then the client id.
pub open spec fn header_bytes(h: RequestHeaderView) -> Seq<u8> {
    u32_be(api_key_code(h.api_key)) + u32_be(h.api_version) + u32_be(h.correlation_id)
        + client_id_bytes(h.client_id)
}

/// Size of a header: 4 + 4 + 4 + 2 and the client id's bytes (counted modulo
/// 2^32).
pub open spec fn request_header_size(h: RequestHeaderView) -> int {
    14 + match h.client_id {
        Some(c) => (byte_len(c) as u32) as int,
        None => 0int,
    }
}

impl RequestHeader {
    /// Bytes the header takes on the wire.
    pub fn get_size(&self) -> (r: u32)
        requires
            request_header_size(self@) <= u32::MAX,
        ensures
            r == request_header_size(self@),
    {
        let client_id_size: usize = if let Some(c) = &self.client_id {
            c.as_str().len()
        } else {
            0
        };
        4 + 4 + 4 + 2 + client_id_size as u32
    }
}

#[derive(Debug, Clone, Copy, PartialEq, Eq, Structural)]
pub enum ApiKey {
    Produce,
    Fetch,
    Metadata,
}

#[derive(Debug, PartialEq, Eq, Structural)]
pub struct InvalidEnumValue(pub u32);

/// The number that stands for an API on the wire.
pub open spec fn api_key_code(k: ApiKey) -> u32 {
    match k {
        ApiKey::Produce => 0,
        ApiKey::Fetch => 1,
        ApiKey::Metadata => 3,
    }
}

/// The API that a number stands for, if any.
pub open spec fn api_key_from_code(v: u32) -> Result<ApiKey, InvalidEnumValue> {
    if v == 0 {
        Ok(ApiKey::Produce)
    } else if v == 1 {
        Ok(ApiKey::Fetch)
    } else if v == 3 {
        Ok(ApiKey::Metadata)
    } else {
        Err(InvalidEnumValue(v))
    }
}

/// Every API survives the trip to its number and back; a number that is
/// read as an API is that API's number.
pub proof fn lemma_api_key_code_roundtrip(k: ApiKey, v: u32)
    ensures
        api_key_from_code(api_key_code(k)) == Ok::<ApiKey, InvalidEnumValue>(k),
        api_key_from_code(v) matches Ok(k2) ==> api_key_code(k2) == v,
{
}

impl TryFrom<u32> for ApiKey {
    type Error = InvalidEnumValue;

    fn try_from(value: u32) -> (r: Result<Self, Self::Error>) {
        match value {
            0 => Ok(ApiKey::Produce),
            1 => Ok(ApiKey::Fetch),
            3 => Ok(ApiKey::Metadata),
            _ => Err(InvalidEnumValue(value)),
        }
    }
}

impl TryFromSpecImpl<u32> for ApiKey {
    open spec fn obeys_try_from_spec() -> bool {
        true
    }

    open spec fn try_from_spec(v: u32) -> Result<Self, InvalidEnumValue> {
        api_key_from_code(v)
    }
}

impl From<ApiKey> for u32 {
    fn from(value: ApiKey) -> (r: Self) {
        match value {
            ApiKey::Produce => 0,
            ApiKey::Fetch => 1,
            ApiKey::Metadata => 3,
        }
    }
}

impl FromSpecImpl<ApiKey> for u32 {
    open spec fn obeys_from_spec() -> bool {
        true
    }

    open spec fn from_spec(v: ApiKey) -> u32 {
        api_key_code(v)
    }
}

} // verus!
