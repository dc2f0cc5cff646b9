//! Decoding of messages in the first message format.

use vstd::prelude::*;
use vstd::utf8::{valid_utf8, decode_utf8};
use vstd::slice::slice_to_vec;
use bytes::Bytes;
use crate::buffer::{bytes_view, bytes_as_slice, bytes_slice, string_from_utf8, string_from_utf8_lossy, lossy_decode};
use crate::message::{Message, MessageView, MessageBodyView};
use crate::message::ack::{Ack, ack_from_code};
use crate::message::body::{MessageBody, ProduceRequest, ProduceRequestView};
use crate::message::header::{MessageApiKey, MessageHeader, MessageHeaderView, message_api_key_from_code};
use crate::message::produce::{ProducePartition, ProducePartitionView, ProduceTopic, ProduceTopicView};
use crate::wire::{be_u16, be_u32, be_u64, get_u16_be, get_u32_be, get_u64_be};

verus! {

/// Reads messages. It holds no state.
#[derive(Debug)]
pub struct MessageParser;

#[derive(Debug, PartialEq, Eq, Structural)]
pub enum ParseError {
    InvalidApiKey,
    InvalidAck,
    InvalidClientId,
}

/// The partition at `pos` and where it ends: id, batch length, then that
/// many raw batch bytes.
pub open spec fn parse_msg_partition_at(s: Seq<u8>, pos: int) -> Option<(ProducePartitionView, int)> {
    if pos + 6 > s.len() {
        None
    } else {
        let partition_id = be_u16(s.subrange(pos, pos + 2));
        let batch_len = be_u32(s.subrange(pos + 2, pos + 6)) as int;
        if pos + 6 + batch_len > s.len() {
            None
        } else {
            Some(
                (
                    ProducePartitionView {
                        partition_id,
                        batch: s.subrange(pos + 6, pos + 6 + batch_len),
                    },
                    pos + 6 + batch_len,
                ),
            )
        }
    }
}

/// `n` partitions one after another from `pos`.
pub open spec fn parse_msg_partitions_at(s: Seq<u8>, pos: int, n: nat) -> Option<
    (Seq<ProducePartitionView>, int),
>
    decreases n,
{
    if n == 0 {
        Some((Seq::empty(), pos))
    } else {
        match parse_msg_partitions_at(s, pos, (n - 1) as nat) {
            Some((ps, p)) => match parse_msg_partition_at(s, p) {
                Some((x, q)) => Some((ps.push(x), q)),
                None => None,
            },
            None => None,
        }
    }
}

/// The topic at `pos` and where it ends: name length, name (decoded
/// leniently), partition count, partitions.
pub open spec fn parse_msg_topic_at(s: Seq<u8>, pos: int) -> Option<(ProduceTopicView, int)> {
    if pos + 2 > s.len() {
        None
    } else {
        let name_len = be_u16(s.subrange(pos, pos + 2)) as int;
        if pos + 2 + name_len > s.len() {
            None
        } else {
            let name = lossy_decode(s.subrange(pos + 2, pos + 2 + name_len));
            let q = pos + 2 + name_len;
            if q + 4 > s.len() {
                None
            } else {
                let count = be_u32(s.subrange(q, q + 4));
                match parse_msg_partitions_at(s, q + 4, count as nat) {
                    Some((ps, e)) => Some((ProduceTopicView { topic: name, partitions: ps }, e)),
                    None => None,
                }
            }
        }
    }
}

/// `n` topics one after another from `pos`.
pub open spec fn parse_msg_topics_at(s: Seq<u8>, pos: int, n: nat) -> Option<
    (Seq<ProduceTopicView>, int),
>
    decreases n,
{
    if n == 0 {
        Some((Seq::empty(), pos))
    } else {
        match parse_msg_topics_at(s, pos, (n - 1) as nat) {
            Some((ts, p)) => match parse_msg_topic_at(s, p) {
                Some((x, q)) => Some((ts.push(x), q)),
                None => None,
            },
            None => None,
        }
    }
}

/// The produce body at `pos`: transactional id, ack code (an unknown code
/// is an error), timeout in milliseconds, topic count, topics.
pub open spec fn parse_msg_produce_at(s: Seq<u8>, pos: int) -> Option<
    Result<ProduceRequestView, ParseError>,
> {
    if pos + 12 > s.len() {
        None
    } else {
        let transactional_id = be_u64(s.subrange(pos, pos + 8));
        match ack_from_code(be_u32(s.subrange(pos + 8, pos + 12))) {
            Err(_) => Some(Err(ParseError::InvalidAck)),
            Ok(acks) => if pos + 22 > s.len() {
                None
            } else {
                let timeout_ms = be_u64(s.subrange(pos + 12, pos + 20));
                let count = be_u16(s.subrange(pos + 20, pos + 22));
                match parse_msg_topics_at(s, pos + 22, count as nat) {
                    Some((topics, _)) => Some(
                        Ok(ProduceRequestView { transactional_id, acks, timeout_ms, topics }),
                    ),
                    None => None,
                }
            },
        }
    }
}

/// The client id of a header and where the header ends, or the error for a
/// client id that is not UTF-8; a length of -1 (or any negative one) means
/// none.
pub open spec fn parse_msg_client_id(s: Seq<u8>) -> Option<Result<(Option<Seq<char>>, int), ParseError>> {
    let len = be_u16(s.subrange(16, 18));
    if len < 0x8000 {
        if 18 + len > s.len() {
            None
        } else if !valid_utf8(s.subrange(18, 18 + len as int)) {
            Some(Err(ParseError::InvalidClientId))
        } else {
            Some(Ok((Some(decode_utf8(s.subrange(18, 18 + len as int))), 18 + len as int)))
        }
    } else {
        Some(Ok((None, 18)))
    }
}

/// What parsing a message gives: size field, header, and for a produce
/// message its body. `None` where the parser panics: the input ends first,
/// or the message is a fetch, whose body it cannot read yet.
pub open spec fn parse_message(s: Seq<u8>) -> Option<Result<MessageView, ParseError>> {
    if s.len() < 18 {
        None
    } else {
        let size = be_u32(s.subrange(0, 4));
        let api = be_u32(s.subrange(4, 8));
        let api_version = be_u32(s.subrange(8, 12));
        let correlation_id = be_u32(s.subrange(12, 16));
        match parse_msg_client_id(s) {
            None => None,
            Some(Err(e)) => Some(Err(e)),
            Some(Ok((client_id, pos))) => match message_api_key_from_code(api) {
                Err(_) => Some(Err(ParseError::InvalidApiKey)),
                Ok(MessageApiKey::Produce) => match parse_msg_produce_at(s, pos) {
                    None => None,
                    Some(Err(e)) => Some(Err(e)),
                    Some(Ok(req)) => Some(
                        Ok(
                            MessageView {
                                size,
                                header: MessageHeaderView {
                                    api_key: MessageApiKey::Produce,
                                    api_version,
                                    correlation_id,
                                    client_id,
                                },
                                body: MessageBodyView::Produce(req),
                            },
                        ),
                    ),
                },
                Ok(MessageApiKey::Fetch) => None,
            },
        }
    }
}

/// A parsing result as plain values.
pub open spec fn message_result_view(r: Result<Message, ParseError>) -> Result<MessageView, ParseError> {
    match r {
        Ok(m) => Ok(m@),
        Err(e) => Err(e),
    }
}

proof fn lemma_msg_partitions_none_stays(s: Seq<u8>, pos: int, m: nat, n: nat)
    requires
        m <= n,
        parse_msg_partitions_at(s, pos, m) is None,
    ensures
        parse_msg_partitions_at(s, pos, n) is None,
    decreases n,
{
    if n > m {
        lemma_msg_partitions_none_stays(s, pos, m, (n - 1) as nat);
    }
}

proof fn lemma_msg_topics_none_stays(s: Seq<u8>, pos: int, m: nat, n: nat)
    requires
        m <= n,
        parse_msg_topics_at(s, pos, m) is None,
    ensures
        parse_msg_topics_at(s, pos, n) is None,
    decreases n,
{
    if n > m {
        lemma_msg_topics_none_stays(s, pos, m, (n - 1) as nat);
    }
}

proof fn lemma_msg_partitions_end_in_bounds(s: Seq<u8>, pos: int, n: nat)
    requires
        0 <= pos <= s.len(),
    ensures
        parse_msg_partitions_at(s, pos, n) matches Some((_, e)) ==> pos <= e <= s.len(),
    decreases n,
{
    if n > 0 {
        lemma_msg_partitions_end_in_bounds(s, pos, (n - 1) as nat);
    }
}

proof fn lemma_msg_topic_end_in_bounds(s: Seq<u8>, pos: int)
    requires
        0 <= pos <= s.len(),
    ensures
        parse_msg_topic_at(s, pos) matches Some((_, e)) ==> pos <= e <= s.len(),
{
    if pos + 2 <= s.len() {
        let name_len = be_u16(s.subrange(pos, pos + 2)) as int;
        let q = pos + 2 + name_len;
        if q + 4 <= s.len() {
            let count = be_u32(s.subrange(q, q + 4));
            lemma_msg_partitions_end_in_bounds(s, q + 4, count as nat);
        }
    }
}

proof fn lemma_msg_topics_end_in_bounds(s: Seq<u8>, pos: int, n: nat)
    requires
        0 <= pos <= s.len(),
    ensures
        parse_msg_topics_at(s, pos, n) matches Some((_, e)) ==> pos <= e <= s.len(),
    decreases n,
{
    if n > 0 {
        lemma_msg_topics_end_in_bounds(s, pos, (n - 1) as nat);
        if let Some((_, p)) = parse_msg_topics_at(s, pos, (n - 1) as nat) {
            lemma_msg_topic_end_in_bounds(s, p);
        }
    }
}

/// Reads the partition at `pos`; its batch is a slice of `buf`.
fn parse_msg_partition(buf: &Bytes, s: &[u8], pos: usize) -> (r: Option<(ProducePartition, usize)>)
    requires
        s@ == bytes_view(*buf),
        pos <= s@.len(),
    ensures
        match r {
            None => parse_msg_partition_at(s@, pos as int) is None,
            Some((p, e)) => parse_msg_partition_at(s@, pos as int) == Some((p@, e as int)),
        },
{
    let len: usize = s.len();
    if len - pos < 6 {
        return None;
    }
    let partition_id = get_u16_be(s, pos);
    let batch_len = get_u32_be(s, pos + 2) as usize;
    if len - pos - 6 < batch_len {
        return None;
    }
    let end = pos + 6 + batch_len;
    let batch = bytes_slice(buf, pos + 6, end);
    Some((ProducePartition { partition_id, batch }, end))
}

/// Reads the topic at `pos`.
fn parse_msg_topic(buf: &Bytes, s: &[u8], pos: usize) -> (r: Option<(ProduceTopic, usize)>)
    requires
        s@ == bytes_view(*buf),
        pos <= s@.len(),
    ensures
        match r {
            None => parse_msg_topic_at(s@, pos as int) is None,
            Some((t, e)) => parse_msg_topic_at(s@, pos as int) == Some((t@, e as int)),
        },
{
    let len: usize = s.len();
    if len - pos < 2 {
        return None;
    }
    let name_len = get_u16_be(s, pos) as usize;
    if len - pos - 2 < name_len {
        return None;
    }
    let topic = string_from_utf8_lossy(&s[pos + 2..pos + 2 + name_len]);
    let q = pos + 2 + name_len;
    if len - q < 4 {
        return None;
    }
    let count = get_u32_be(s, q);
    let start = q + 4;
    let mut partitions: Vec<ProducePartition> = Vec::new();
    let mut at = start;
    let mut i: u32 = 0;
    while i < count
        invariant
            len == s@.len(),
            s@ == bytes_view(*buf),
            parse_msg_topic_at(s@, pos as int) == (match parse_msg_partitions_at(s@, start as int, count as nat) {
                Some((ps, e)) => Some((ProduceTopicView { topic: topic@, partitions: ps }, e)),
                None => None,
            }),
            start <= at <= len,
            i <= count,
            parse_msg_partitions_at(s@, start as int, i as nat) == Some(
                (partitions@.map_values(|p: ProducePartition| p@), at as int),
            ),
        decreases count - i,
    {
        match parse_msg_partition(buf, s, at) {
            None => {
                proof {
                    lemma_msg_partitions_none_stays(s@, start as int, (i + 1) as nat, count as nat);
                }
                return None;
            },
            Some((p, e)) => {
                proof {
                    lemma_msg_partitions_end_in_bounds(s@, start as int, (i + 1) as nat);
                }
                let ghost before = partitions@.map_values(|p: ProducePartition| p@);
                partitions.push(p);
                assert(partitions@.map_values(|p: ProducePartition| p@) =~= before.push(p@));
                at = e;
            },
        }
        i = i + 1;
    }
    Some((ProduceTopic { topic, partitions }, at))
}

/// Reads the produce body at `pos`.
fn parse_msg_produce(buf: &Bytes, s: &[u8], pos: usize) -> (r: Option<Result<ProduceRequest, ParseError>>)
    requires
        s@ == bytes_view(*buf),
        pos <= s@.len(),
    ensures
        match r {
            None => parse_msg_produce_at(s@, pos as int) is None,
            Some(Err(e)) => parse_msg_produce_at(s@, pos as int) == Some(
                Err::<ProduceRequestView, ParseError>(e),
            ),
            Some(Ok(req)) => parse_msg_produce_at(s@, pos as int) == Some(
                Ok::<ProduceRequestView, ParseError>(req@),
            ),
        },
{
    let len: usize = s.len();
    if len - pos < 12 {
        return None;
    }
    let transactional_id = get_u64_be(s, pos);
    let acks: Ack = match Ack::try_from(get_u32_be(s, pos + 8)) {
        Ok(a) => a,
        Err(_) => return Some(Err(ParseError::InvalidAck)),
    };
    if len - pos < 22 {
        return None;
    }
    let timeout_ms = get_u64_be(s, pos + 12);
    let count = get_u16_be(s, pos + 20);
    let start = pos + 22;
    let ghost tail = match parse_msg_topics_at(s@, start as int, count as nat) {
        Some((topics, _)) => Some(
            Ok::<ProduceRequestView, ParseError>(ProduceRequestView { transactional_id, acks, timeout_ms, topics }),
        ),
        None => None,
    };
    assert(parse_msg_produce_at(s@, pos as int) == tail);
    let mut topics: Vec<ProduceTopic> = Vec::new();
    let mut at = start;
    let mut i: u16 = 0;
    while i < count
        invariant
            len == s@.len(),
            s@ == bytes_view(*buf),
            parse_msg_produce_at(s@, pos as int) == tail,
            tail == (match parse_msg_topics_at(s@, start as int, count as nat) {
                Some((topics, _)) => Some(
                    Ok::<ProduceRequestView, ParseError>(ProduceRequestView { transactional_id, acks, timeout_ms, topics }),
                ),
                None => None,
            }),
            start <= at <= len,
            i <= count,
            parse_msg_topics_at(s@, start as int, i as nat) == Some(
                (topics@.map_values(|t: ProduceTopic| t@), at as int),
            ),
        decreases count - i,
    {
        match parse_msg_topic(buf, s, at) {
            None => {
                proof {
                    lemma_msg_topics_none_stays(s@, start as int, (i + 1) as nat, count as nat);
                }
                return None;
            },
            Some((t, e)) => {
                proof {
                    lemma_msg_topics_end_in_bounds(s@, start as int, (i + 1) as nat);
                }
                let ghost before = topics@.map_values(|t: ProduceTopic| t@);
                topics.push(t);
                assert(topics@.map_values(|t: ProduceTopic| t@) =~= before.push(t@));
                at = e;
            },
        }
        i = i + 1;
    }
    let req = ProduceRequest { transactional_id, acks, timeout_ms, topics };
    assert(req@.topics == topics@.map_values(|t: ProduceTopic| t@));
    Some(Ok(req))
}

/// Reads the client id of a header whose fixed part is present.
fn parse_msg_client_id_at(s: &[u8]) -> (r: Option<Result<(Option<String>, usize), ParseError>>)
    requires
        18 <= s@.len(),
    ensures
        match r {
            None => parse_msg_client_id(s@) is None,
            Some(Err(e)) => parse_msg_client_id(s@) == Some(
                Err::<(Option<Seq<char>>, int), ParseError>(e),
            ),
            Some(Ok((c, p))) => parse_msg_client_id(s@) == Some(
                Ok::<(Option<Seq<char>>, int), ParseError>(
                    (
                        match c {
                            Some(x) => Some(x@),
                            None => None,
                        },
                        p as int,
                    ),
                ),
            ),
        },
{
    let len: usize = s.len();
    let client_id_len = get_u16_be(s, 16);
    if client_id_len < 0x8000 {
        let n = client_id_len as usize;
        if len - 18 < n {
            return None;
        }
        match string_from_utf8(slice_to_vec(&s[18..18 + n])) {
            Some(c) => Some(Ok((Some(c), 18 + n))),
            None => Some(Err(ParseError::InvalidClientId)),
        }
    } else {
        Some(Ok((None, 18)))
    }
}

impl MessageParser {
    /// Parses a message, or says `None` where `parse` would panic: the input
    /// ends before a field it reads, or it is a fetch message.
    pub fn parse_checked(&mut self, buf: &Bytes) -> (r: Option<Result<Message, ParseError>>)
        ensures
            match r {
                None => parse_message(bytes_view(*buf)) is None,
                Some(res) => parse_message(bytes_view(*buf)) == Some(message_result_view(res)),
            },
    {
        let s = bytes_as_slice(buf);
        if s.len() < 18 {
            return None;
        }
        let size = get_u32_be(s, 0);
        let api_key = get_u32_be(s, 4);
        let api_version = get_u32_be(s, 8);
        let correlation_id = get_u32_be(s, 12);
        let (client_id, pos) = match parse_msg_client_id_at(s) {
            None => return None,
            Some(Err(e)) => return Some(Err(e)),
            Some(Ok(x)) => x,
        };
        let api_key: MessageApiKey = match MessageApiKey::try_from(api_key) {
            Ok(k) => k,
            Err(_) => return Some(Err(ParseError::InvalidApiKey)),
        };
        let header = MessageHeader { api_key, api_version, correlation_id, client_id };
        match api_key {
            MessageApiKey::Produce => match parse_msg_produce(buf, s, pos) {
                None => None,
                Some(Err(e)) => Some(Err(e)),
                Some(Ok(req)) => Some(Ok(Message { size, header, body: MessageBody::Produce(req) })),
            },
            MessageApiKey::Fetch => None,
        }
    }

    /// Parses a message: the header, then a produce message's body.
    pub fn parse(&mut self, buf: Bytes) -> (r: Result<Message, ParseError>)
        requires
            parse_message(bytes_view(buf)) is Some,
        ensures
            parse_message(bytes_view(buf)) == Some(message_result_view(r)),
    {
        match self.parse_checked(&buf) {
            Some(r) => r,
            None => {
                proof {
                    assert(false);
                }
                Err(ParseError::InvalidApiKey)
            },
        }
    }
}

} // verus!
