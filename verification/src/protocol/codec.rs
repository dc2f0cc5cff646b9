//! Decoding of request frames from their bytes.

use vstd::prelude::*;
use vstd::utf8::{valid_utf8, decode_utf8};
use vstd::slice::slice_to_vec;
use bytes::Bytes;
use crate::buffer::{bytes_view, bytes_as_slice, string_from_utf8, string_from_utf8_lossy, lossy_decode};
use crate::protocol::{Frame, FrameView, FrameBodyView};
use crate::protocol::body::FrameBody;
use crate::protocol::header::{ApiKey, RequestHeader, RequestHeaderView, api_key_from_code};
use crate::protocol::produce::{
    Acks, ProducePartition, ProducePartitionView, ProduceRequest, ProduceRequestView, ProduceTopic,
    ProduceTopicView, acks_from_code,
};
use crate::storage::record_batch::{RecordBatch, batch_decodable, decode_batch};
use crate::wire::{be_u16, be_u32, be_u64, get_u16_be, get_u32_be, get_u64_be};

verus! {

/// Reads request frames. It holds no state.
#[derive(Debug)]
pub struct RequestDecoder;

#[derive(Debug, PartialEq, Eq, Structural)]
pub enum ParseError {
    InvalidApiKey,
    InvalidAck,
    InvalidClientId,
}

/// The partition of a produce request at `pos` and where it ends: index,
/// batch length, then that many bytes holding one batch. `None` where the
/// input ends first or the bytes do not hold a whole batch.
pub open spec fn parse_partition_at(s: Seq<u8>, pos: int) -> Option<(ProducePartitionView, int)> {
    if pos + 6 > s.len() {
        None
    } else {
        let index = be_u16(s.subrange(pos, pos + 2));
        let batch_len = be_u32(s.subrange(pos + 2, pos + 6)) as int;
        if pos + 6 + batch_len > s.len() {
            None
        } else {
            let batch = s.subrange(pos + 6, pos + 6 + batch_len);
            if !batch_decodable(batch, 0) {
                None
            } else {
                Some(
                    (
                        ProducePartitionView { index, records: decode_batch(batch, 0) },
                        pos + 6 + batch_len,
                    ),
                )
            }
        }
    }
}

/// `n` partitions one after another from `pos`.
pub open spec fn parse_partitions_at(s: Seq<u8>, pos: int, n: nat) -> Option<
    (Seq<ProducePartitionView>, int),
>
    decreases n,
{
    if n == 0 {
        Some((Seq::empty(), pos))
    } else {
        match parse_partitions_at(s, pos, (n - 1) as nat) {
            Some((ps, p)) => match parse_partition_at(s, p) {
                Some((x, q)) => Some((ps.push(x), q)),
                None => None,
            },
            None => None,
        }
    }
}

/// The topic of a produce request at `pos` and where it ends: name length,
/// name (decoded leniently), partition count, partitions.
pub open spec fn parse_topic_at(s: Seq<u8>, pos: int) -> Option<(ProduceTopicView, int)> {
    if pos + 2 > s.len() {
        None
    } else {
        let name_len = be_u16(s.subrange(pos, pos + 2)) as int;
        if pos + 2 + name_len > s.len() {
            None
        } else {
            let name = lossy_decode(s.subrange(pos + 2, pos + 2 + name_len));
            let q = pos + 2 + name_len;
            if q + 4 > s.len() {
                None
            } else {
                let count = be_u32(s.subrange(q, q + 4));
                match parse_partitions_at(s, q + 4, count as nat) {
                    Some((ps, e)) => Some((ProduceTopicView { topic: name, partitions: ps }, e)),
                    None => None,
                }
            }
        }
    }
}

/// `n` topics one after another from `pos`.
pub open spec fn parse_topics_at(s: Seq<u8>, pos: int, n: nat) -> Option<
    (Seq<ProduceTopicView>, int),
>
    decreases n,
{
    if n == 0 {
        Some((Seq::empty(), pos))
    } else {
        match parse_topics_at(s, pos, (n - 1) as nat) {
            Some((ts, p)) => match parse_topic_at(s, p) {
                Some((x, q)) => Some((ts.push(x), q)),
                None => None,
            },
            None => None,
        }
    }
}

/// The produce request at `pos`: transactional id, acks code (an unknown
/// code is an error), timeout, topic count, topics.
pub open spec fn parse_produce_at(s: Seq<u8>, pos: int) -> Option<
    Result<ProduceRequestView, ParseError>,
> {
    if pos + 12 > s.len() {
        None
    } else {
        let transactional_id = be_u64(s.subrange(pos, pos + 8));
        match acks_from_code(be_u32(s.subrange(pos + 8, pos + 12))) {
            Err(_) => Some(Err(ParseError::InvalidAck)),
            Ok(acks) => if pos + 22 > s.len() {
                None
            } else {
                let timeout_ms = be_u64(s.subrange(pos + 12, pos + 20));
                let count = be_u16(s.subrange(pos + 20, pos + 22));
                match parse_topics_at(s, pos + 22, count as nat) {
                    Some((topics, _)) => Some(
                        Ok(ProduceRequestView { transactional_id, acks, timeout_ms, topics }),
                    ),
                    None => None,
                }
            },
        }
    }
}

/// The client id that a header holds and where the header ends, or the
/// error for a client id that is not UTF-8.
pub open spec fn parse_client_id(s: Seq<u8>) -> Option<Result<(Option<Seq<char>>, int), ParseError>> {
    let len = be_u16(s.subrange(16, 18));
    if len < 0x8000 {
        if 18 + len > s.len() {
            None
        } else if !valid_utf8(s.subrange(18, 18 + len as int)) {
            Some(Err(ParseError::InvalidClientId))
        } else {
            Some(Ok((Some(decode_utf8(s.subrange(18, 18 + len as int))), 18 + len as int)))
        }
    } else {
        Some(Ok((None, 18)))
    }
}

/// What decoding a frame gives: the size field, the header (api key,
/// version, correlation id, client id whose length -1 means none), then for
/// a produce request its body. `None` where the decoder panics: the input
/// ends first, or the API is one whose body it cannot read yet.
pub open spec fn parse_frame(s: Seq<u8>) -> Option<Result<FrameView, ParseError>> {
    if s.len() < 18 {
        None
    } else {
        let size = be_u32(s.subrange(0, 4));
        let api = be_u32(s.subrange(4, 8));
        let api_version = be_u32(s.subrange(8, 12));
        let correlation_id = be_u32(s.subrange(12, 16));
        match parse_client_id(s) {
            None => None,
            Some(Err(e)) => Some(Err(e)),
            Some(Ok((client_id, pos))) => match api_key_from_code(api) {
                Err(_) => Some(Err(ParseError::InvalidApiKey)),
                Ok(ApiKey::Produce) => match parse_produce_at(s, pos) {
                    None => None,
                    Some(Err(e)) => Some(Err(e)),
                    Some(Ok(req)) => Some(
                        Ok(
                            FrameView {
                                size,
                                header: RequestHeaderView {
                                    api_key: ApiKey::Produce,
                                    api_version,
                                    correlation_id,
                                    client_id,
                                },
                                body: FrameBodyView::Produce(req),
                            },
                        ),
                    ),
                },
                Ok(_) => None,
            },
        }
    }
}

/// A decoding result as plain values.
pub open spec fn frame_result_view(r: Result<Frame, ParseError>) -> Result<FrameView, ParseError> {
    match r {
        Ok(f) => Ok(f@),
        Err(e) => Err(e),
    }
}

/// Once partitions fail to parse, more of them fail too.
proof fn lemma_partitions_none_stays(s: Seq<u8>, pos: int, m: nat, n: nat)
    requires
        m <= n,
        parse_partitions_at(s, pos, m) is None,
    ensures
        parse_partitions_at(s, pos, n) is None,
    decreases n,
{
    if n > m {
        lemma_partitions_none_stays(s, pos, m, (n - 1) as nat);
    }
}

/// Once topics fail to parse, more of them fail too.
proof fn lemma_topics_none_stays(s: Seq<u8>, pos: int, m: nat, n: nat)
    requires
        m <= n,
        parse_topics_at(s, pos, m) is None,
    ensures
        parse_topics_at(s, pos, n) is None,
    decreases n,
{
    if n > m {
        lemma_topics_none_stays(s, pos, m, (n - 1) as nat);
    }
}

/// Positions that parsing reaches lie inside the input.
proof fn lemma_partitions_end_in_bounds(s: Seq<u8>, pos: int, n: nat)
    requires
        0 <= pos <= s.len(),
    ensures
        parse_partitions_at(s, pos, n) matches Some((_, e)) ==> pos <= e <= s.len(),
    decreases n,
{
    if n > 0 {
        lemma_partitions_end_in_bounds(s, pos, (n - 1) as nat);
    }
}

/// Reads the partition at `pos`.
fn parse_partition(s: &[u8], pos: usize) -> (r: Option<(ProducePartition, usize)>)
    requires
        pos <= s@.len(),
    ensures
        match r {
            None => parse_partition_at(s@, pos as int) is None,
            Some((p, e)) => parse_partition_at(s@, pos as int) == Some((p@, e as int)),
        },
{
    let len: usize = s.len();
    if len - pos < 6 {
        return None;
    }
    let index = get_u16_be(s, pos);
    let batch_len = get_u32_be(s, pos + 2) as usize;
    if len - pos - 6 < batch_len {
        return None;
    }
    let end = pos + 6 + batch_len;
    let batch = &s[pos + 6..end];
    assert(batch@ == s@.subrange(pos + 6, pos + 6 + batch_len));
    if batch_len < 16 {
        return None;
    }
    let declared = get_u32_be(batch, 8) as usize;
    if declared < 4 || batch_len - 12 < declared {
        return None;
    }
    let records = RecordBatch::decode(batch, 0);
    Some((ProducePartition { index, records }, end))
}

/// Reads the topic at `pos`.
fn parse_topic(s: &[u8], pos: usize) -> (r: Option<(ProduceTopic, usize)>)
    requires
        pos <= s@.len(),
    ensures
        match r {
            None => parse_topic_at(s@, pos as int) is None,
            Some((t, e)) => parse_topic_at(s@, pos as int) == Some((t@, e as int)),
        },
{
    let len: usize = s.len();
    if len - pos < 2 {
        return None;
    }
    let name_len = get_u16_be(s, pos) as usize;
    if len - pos - 2 < name_len {
        return None;
    }
    let topic = string_from_utf8_lossy(&s[pos + 2..pos + 2 + name_len]);
    let q = pos + 2 + name_len;
    if len - q < 4 {
        return None;
    }
    let count = get_u32_be(s, q);
    let start = q + 4;
    assert(parse_topic_at(s@, pos as int) == (match parse_partitions_at(s@, start as int, count as nat) {
        Some((ps, e)) => Some((ProduceTopicView { topic: topic@, partitions: ps }, e)),
        None => None,
    }));
    let mut partitions: Vec<ProducePartition> = Vec::new();
    let mut at = start;
    let mut i: u32 = 0;
    while i < count
        invariant
            len == s@.len(),
            parse_topic_at(s@, pos as int) == (match parse_partitions_at(s@, start as int, count as nat) {
                Some((ps, e)) => Some((ProduceTopicView { topic: topic@, partitions: ps }, e)),
                None => None,
            }),
            start <= at <= len,
            i <= count,
            parse_partitions_at(s@, start as int, i as nat) == Some(
                (partitions@.map_values(|p: ProducePartition| p@), at as int),
            ),
        decreases count - i,
    {
        match parse_partition(s, at) {
            None => {
                proof {
                    lemma_partitions_none_stays(s@, start as int, (i + 1) as nat, count as nat);
                }
                return None;
            },
            Some((p, e)) => {
                proof {
                    lemma_partitions_end_in_bounds(s@, start as int, (i + 1) as nat);
                }
                let ghost before = partitions@.map_values(|p: ProducePartition| p@);
                partitions.push(p);
                assert(partitions@.map_values(|p: ProducePartition| p@) =~= before.push(p@));
                at = e;
            },
        }
        i = i + 1;
    }
    Some((ProduceTopic { topic, partitions }, at))
}

/// Positions that parsing topics reaches lie inside the input.
proof fn lemma_topics_end_in_bounds(s: Seq<u8>, pos: int, n: nat)
    requires
        0 <= pos <= s.len(),
    ensures
        parse_topics_at(s, pos, n) matches Some((_, e)) ==> pos <= e <= s.len(),
    decreases n,
{
    if n > 0 {
        lemma_topics_end_in_bounds(s, pos, (n - 1) as nat);
        if let Some((_, p)) = parse_topics_at(s, pos, (n - 1) as nat) {
            lemma_topic_end_in_bounds(s, p);
        }
    }
}

/// A topic that parses ends inside the input.
proof fn lemma_topic_end_in_bounds(s: Seq<u8>, pos: int)
    requires
        0 <= pos <= s.len(),
    ensures
        parse_topic_at(s, pos) matches Some((_, e)) ==> pos <= e <= s.len(),
{
    if pos + 2 <= s.len() {
        let name_len = be_u16(s.subrange(pos, pos + 2)) as int;
        let q = pos + 2 + name_len;
        if q + 4 <= s.len() {
            let count = be_u32(s.subrange(q, q + 4));
            lemma_partitions_end_in_bounds(s, q + 4, count as nat);
        }
    }
}

/// Reads the produce request at `pos`.
fn parse_produce(s: &[u8], pos: usize) -> (r: Option<Result<ProduceRequest, ParseError>>)
    requires
        pos <= s@.len(),
    ensures
        match r {
            None => parse_produce_at(s@, pos as int) is None,
            Some(Err(e)) => parse_produce_at(s@, pos as int) == Some(
                Err::<ProduceRequestView, ParseError>(e),
            ),
            Some(Ok(req)) => parse_produce_at(s@, pos as int) == Some(
                Ok::<ProduceRequestView, ParseError>(req@),
            ),
        },
{
    let len: usize = s.len();
    if len - pos < 12 {
        return None;
    }
    let transactional_id = get_u64_be(s, pos);
    let acks: Acks = match Acks::try_from(get_u32_be(s, pos + 8)) {
        Ok(a) => a,
        Err(_) => return Some(Err(ParseError::InvalidAck)),
    };
    if len - pos < 22 {
        return None;
    }
    let timeout_ms = get_u64_be(s, pos + 12);
    let count = get_u16_be(s, pos + 20);
    let start = pos + 22;
    let ghost tail = match parse_topics_at(s@, start as int, count as nat) {
        Some((topics, _)) => Some(
            Ok::<ProduceRequestView, ParseError>(ProduceRequestView { transactional_id, acks, timeout_ms, topics }),
        ),
        None => None,
    };
    assert(parse_produce_at(s@, pos as int) == tail);
    let mut topics: Vec<ProduceTopic> = Vec::new();
    let mut at = start;
    let mut i: u16 = 0;
    while i < count
        invariant
            len == s@.len(),
            parse_produce_at(s@, pos as int) == tail,
            tail == (match parse_topics_at(s@, start as int, count as nat) {
                Some((topics, _)) => Some(
                    Ok::<ProduceRequestView, ParseError>(ProduceRequestView { transactional_id, acks, timeout_ms, topics }),
                ),
                None => None,
            }),
            start <= at <= len,
            i <= count,
            parse_topics_at(s@, start as int, i as nat) == Some(
                (topics@.map_values(|t: ProduceTopic| t@), at as int),
            ),
        decreases count - i,
    {
        match parse_topic(s, at) {
            None => {
                proof {
                    lemma_topics_none_stays(s@, start as int, (i + 1) as nat, count as nat);
                }
                return None;
            },
            Some((t, e)) => {
                proof {
                    lemma_topics_end_in_bounds(s@, start as int, (i + 1) as nat);
                }
                let ghost before = topics@.map_values(|t: ProduceTopic| t@);
                topics.push(t);
                assert(topics@.map_values(|t: ProduceTopic| t@) =~= before.push(t@));
                at = e;
            },
        }
        i = i + 1;
    }
    let req = ProduceRequest { transactional_id, acks, timeout_ms, topics };
    assert(req@.topics == topics@.map_values(|t: ProduceTopic| t@));
    Some(Ok(req))
}

/// Reads the client id of a header whose fixed part is present.
fn parse_client_id_at(s: &[u8]) -> (r: Option<Result<(Option<String>, usize), ParseError>>)
    requires
        18 <= s@.len(),
    ensures
        match r {
            None => parse_client_id(s@) is None,
            Some(Err(e)) => parse_client_id(s@) == Some(
                Err::<(Option<Seq<char>>, int), ParseError>(e),
            ),
            Some(Ok((c, p))) => parse_client_id(s@) == Some(
                Ok::<(Option<Seq<char>>, int), ParseError>(
                    (
                        match c {
                            Some(x) => Some(x@),
                            None => None,
                        },
                        p as int,
                    ),
                ),
            ),
        },
{
    let len: usize = s.len();
    let client_id_len = get_u16_be(s, 16);
    if client_id_len < 0x8000 {
        let n = client_id_len as usize;
        if len - 18 < n {
            return None;
        }
        match string_from_utf8(slice_to_vec(&s[18..18 + n])) {
            Some(c) => Some(Ok((Some(c), 18 + n))),
            None => Some(Err(ParseError::InvalidClientId)),
        }
    } else {
        Some(Ok((None, 18)))
    }
}

/// Reads a frame; `None` exactly where the decoder cannot go on.
fn parse_frame_bytes(s: &[u8]) -> (r: Option<Result<Frame, ParseError>>)
    ensures
        match r {
            None => parse_frame(s@) is None,
            Some(res) => parse_frame(s@) == Some(frame_result_view(res)),
        },
{
    if s.len() < 18 {
        return None;
    }
    let size = get_u32_be(s, 0);
    let api_key = get_u32_be(s, 4);
    let api_version = get_u32_be(s, 8);
    let correlation_id = get_u32_be(s, 12);
    let (client_id, pos) = match parse_client_id_at(s) {
        None => return None,
        Some(Err(e)) => return Some(Err(e)),
        Some(Ok(x)) => x,
    };
    let api_key: ApiKey = match ApiKey::try_from(api_key) {
        Ok(k) => k,
        Err(_) => return Some(Err(ParseError::InvalidApiKey)),
    };
    let header = RequestHeader { api_key, api_version, correlation_id, client_id };
    match api_key {
        ApiKey::Produce => match parse_produce(s, pos) {
            None => None,
            Some(Err(e)) => Some(Err(e)),
            Some(Ok(req)) => Some(Ok(Frame { size, header, body: FrameBody::Produce(req) })),
        },
        _ => None,
    }
}

impl RequestDecoder {
    /// Decodes a frame, or says `None` where `parse` would panic: the input
    /// ends before a field it reads, or the API's body cannot be read yet.
    pub fn parse_checked(&mut self, buf: &Bytes) -> (r: Option<Result<Frame, ParseError>>)
        ensures
            match r {
                None => parse_frame(bytes_view(*buf)) is None,
                Some(res) => parse_frame(bytes_view(*buf)) == Some(frame_result_view(res)),
            },
    {
        let s = bytes_as_slice(buf);
        parse_frame_bytes(s)
    }

    /// Decodes a frame: the header, then a produce request's body.
    pub fn parse(&mut self, buf: Bytes) -> (r: Result<Frame, ParseError>)
        requires
            parse_frame(bytes_view(buf)) is Some,
        ensures
            parse_frame(bytes_view(buf)) == Some(frame_result_view(r)),
    {
        match self.parse_checked(&buf) {
            Some(r) => r,
            None => {
                proof {
                    assert(false);
                }
                Err(ParseError::InvalidApiKey)
            },
        }
    }
}

impl Frame {
    /// Decodes a frame from its bytes.
    pub fn decode(buf: Bytes) -> (r: Result<Self, ParseError>)
        requires
            parse_frame(bytes_view(buf)) is Some,
        ensures
            parse_frame(bytes_view(buf)) == Some(frame_result_view(r)),
    {
        let mut decoder = RequestDecoder;
        decoder.parse(buf)
    }
}

} // verus!
