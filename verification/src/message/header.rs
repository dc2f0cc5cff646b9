//! The message header of the first message format.

use vstd::prelude::*;
use vstd::std_specs::convert::{FromSpecImpl, TryFromSpecImpl};
use crate::protocol::produce::byte_len;

verus! {

/// Bytes of the fixed part of a header: four 32-bit fields.
pub const HEADER_SIZE: usize = 16;

#[derive(Debug, Clone)]
pub struct MessageHeader {
    pub api_key: MessageApiKey,
    pub api_version: u32,
    pub correlation_id: u32,
    pub client_id: Option<String>,
}

/// A header as plain values.
pub struct MessageHeaderView {
    pub api_key: MessageApiKey,
    pub api_version: u32,
    pub correlation_id: u32,
    pub client_id: Option<Seq<char>>,
}

impl View for MessageHeader {
    type V = MessageHeaderView;

    open spec fn view(&self) -> MessageHeaderView {
        MessageHeaderView {
            api_key: self.api_key,
            api_version: self.api_version,
            correlation_id: self.correlation_id,
            client_id: match self.client_id {
                Some(c) => Some(c@),
                None => None,
            },
        }
    }
}

/// Size of a header: 4 + 4 + 4 + 2 and the client id's bytes (counted modulo
/// 2^32).
pub open spec fn message_header_size(h: MessageHeaderView) -> int {
    14 + match h.client_id {
        Some(c) => (byte_len(c) as u32) as int,
        None => 0int,
    }
}

impl MessageHeader {
    /// Bytes the header takes on the wire.
    pub fn get_size(&self) -> (r: u32)
        requires
            message_header_size(self@) <= u32::MAX,
        ensures
            r == message_header_size(self@),
    {
        let client_id_size: usize = if let Some(c) = &self.client_id {
            c.as_str().len()
        } else {
            0
        };
        4 + 4 + 4 + 2 + client_id_size as u32
    }
}

#[derive(Debug, Clone, Copy, PartialEq, Eq, Structural)]
pub enum MessageApiKey {
    Produce,
    Fetch,
}

#[derive(Debug, PartialEq, Eq, Structural)]
pub struct InvalidEnumValue(pub u32);

/// The number that stands for an API on the wire.
pub open spec fn message_api_key_code(k: MessageApiKey) -> u32 {
    match k {
        MessageApiKey::Produce => 0,
        MessageApiKey::Fetch => 1,
    }
}

/// The API that a number stands for, if any.
pub open spec fn message_api_key_from_code(v: u32) -> Result<MessageApiKey, InvalidEnumValue> {
    if v == 0 {
        Ok(MessageApiKey::Produce)
    } else if v == 1 {
        Ok(MessageApiKey::Fetch)
    } else {
        Err(InvalidEnumValue(v))
    }
}

/// Every API survives the trip to its number and back; a number that is
/// read as an API is that API's number.
pub proof fn lemma_message_api_key_code_roundtrip(k: MessageApiKey, v: u32)
    ensures
        message_api_key_from_code(message_api_key_code(k)) == Ok::<MessageApiKey, InvalidEnumValue>(k),
        message_api_key_from_code(v) matches Ok(k2) ==> message_api_key_code(k2) == v,
{
}

impl TryFrom<u32> for MessageApiKey {
    type Error = InvalidEnumValue;

    fn try_from(value: u32) -> (r: Result<Self, Self::Error>) {
        match value {
            0 => Ok(MessageApiKey::Produce),
            1 => Ok(MessageApiKey::Fetch),
            _ => Err(InvalidEnumValue(value)),
        }
    }
}

impl TryFromSpecImpl<u32> for MessageApiKey {
    open spec fn obeys_try_from_spec() -> bool {
        true
    }

    open spec fn try_from_spec(v: u32) -> Result<Self, InvalidEnumValue> {
        message_api_key_from_code(v)
    }
}

impl From<MessageApiKey> for u32 {
    fn from(value: MessageApiKey) -> (r: Self) {
        match value {
            MessageApiKey::Produce => 0,
            MessageApiKey::Fetch => 1,
        }
    }
}

impl FromSpecImpl<MessageApiKey> for u32 {
    open spec fn obeys_from_spec() -> bool {
        true
    }

    open spec fn from_spec(v: MessageApiKey) -> u32 {
        message_api_key_code(v)
    }
}

} // verus!
