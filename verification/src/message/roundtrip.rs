//! Parsing an encoded produce message gives the message back.

use vstd::prelude::*;
use vstd::utf8::{encode_utf8, encode_utf8_valid_utf8, encode_utf8_decode_utf8};
use crate::message::{MessageView, MessageBodyView, message_bytes, msg_produce_bytes, msg_topics_bytes, msg_topic_bytes, msg_partitions_bytes, msg_partition_bytes};
use crate::message::ack::{ack_code, lemma_ack_code_roundtrip};
use crate::message::body::ProduceRequestView;
use crate::message::header::{MessageApiKey, MessageHeaderView, message_api_key_code, lemma_message_api_key_code_roundtrip};
use crate::message::parser::{ParseError, parse_message, parse_msg_client_id, parse_msg_produce_at, parse_msg_topics_at, parse_msg_topic_at, parse_msg_partitions_at, parse_msg_partition_at};
use crate::message::produce::{ProducePartitionView, ProduceTopicView};
use crate::protocol::header::client_id_bytes;
use crate::protocol::produce::byte_len;
use crate::protocol::roundtrip::lemma_split_at;
use crate::wire::{u16_be, u32_be, u64_be, lemma_u16_be_roundtrip, lemma_u32_be_roundtrip, lemma_u64_be_roundtrip};

verus! {

/// A partition whose batch length fits its 32-bit field.
pub open spec fn msg_partition_fits(p: ProducePartitionView) -> bool {
    p.batch.len() <= u32::MAX
}

/// A topic whose name fits its 16-bit length, whose partitions fit their
/// 32-bit count, and whose partitions each fit.
pub open spec fn msg_topic_fits(t: ProduceTopicView) -> bool {
    &&& encode_utf8(t.topic).len() < 0x1_0000
    &&& t.partitions.len() <= u32::MAX
    &&& forall|i: int| 0 <= i < t.partitions.len() ==> msg_partition_fits(#[trigger] t.partitions[i])
}

/// A produce body whose topics fit their 16-bit count and each fit.
pub open spec fn msg_produce_fits(r: ProduceRequestView) -> bool {
    &&& r.topics.len() < 0x1_0000
    &&& forall|i: int| 0 <= i < r.topics.len() ==> msg_topic_fits(#[trigger] r.topics[i])
}

/// A produce header whose client id is short enough for its length to read
/// as non-negative.
pub open spec fn msg_header_fits(h: MessageHeaderView) -> bool {
    &&& h.api_key == MessageApiKey::Produce
    &&& h.client_id matches Some(c) ==> encode_utf8(c).len() < 0x8000
}

proof fn lemma_msg_partition_roundtrip(s: Seq<u8>, pos: int, p: ProducePartitionView)
    requires
        msg_partition_fits(p),
        0 <= pos,
        pos + msg_partition_bytes(p).len() <= s.len(),
        s.subrange(pos, pos + msg_partition_bytes(p).len()) == msg_partition_bytes(p),
    ensures
        parse_msg_partition_at(s, pos) == Some((p, pos + msg_partition_bytes(p).len())),
{
    let x = u16_be(p.partition_id);
    let y = u32_be(p.batch.len() as u32);
    lemma_u16_be_roundtrip(p.partition_id);
    lemma_u32_be_roundtrip(p.batch.len() as u32);
    assert(msg_partition_bytes(p) =~= x + (y + p.batch));
    lemma_split_at(s, pos, x, y + p.batch);
    lemma_split_at(s, pos + 2, y, p.batch);
}

proof fn lemma_msg_partitions_roundtrip(s: Seq<u8>, pos: int, ps: Seq<ProducePartitionView>)
    requires
        forall|i: int| 0 <= i < ps.len() ==> msg_partition_fits(#[trigger] ps[i]),
        0 <= pos,
        pos + msg_partitions_bytes(ps).len() <= s.len(),
        s.subrange(pos, pos + msg_partitions_bytes(ps).len()) == msg_partitions_bytes(ps),
    ensures
        parse_msg_partitions_at(s, pos, ps.len()) == Some((ps, pos + msg_partitions_bytes(ps).len())),
    decreases ps.len(),
{
    if ps.len() > 0 {
        let init = ps.drop_last();
        let a = msg_partitions_bytes(init);
        let b = msg_partition_bytes(ps.last());
        lemma_split_at(s, pos, a, b);
        assert forall|i: int| 0 <= i < init.len() implies msg_partition_fits(#[trigger] init[i]) by {
            assert(init[i] == ps[i]);
        }
        assert(msg_partition_fits(ps[ps.len() - 1]));
        lemma_msg_partitions_roundtrip(s, pos, init);
        lemma_msg_partition_roundtrip(s, pos + a.len(), ps.last());
        assert(init.push(ps.last()) =~= ps);
    }
}

proof fn lemma_msg_topic_roundtrip(s: Seq<u8>, pos: int, t: ProduceTopicView)
    requires
        msg_topic_fits(t),
        0 <= pos,
        pos + msg_topic_bytes(t).len() <= s.len(),
        s.subrange(pos, pos + msg_topic_bytes(t).len()) == msg_topic_bytes(t),
    ensures
        parse_msg_topic_at(s, pos) == Some((t, pos + msg_topic_bytes(t).len())),
{
    let name = encode_utf8(t.topic);
    let nl = name.len();
    let x = u16_be(byte_len(t.topic) as u16);
    let y = u32_be(t.partitions.len() as u32);
    let z = msg_partitions_bytes(t.partitions);
    lemma_u16_be_roundtrip(byte_len(t.topic) as u16);
    lemma_u32_be_roundtrip(t.partitions.len() as u32);
    encode_utf8_valid_utf8(t.topic);
    encode_utf8_decode_utf8(t.topic);
    assert(msg_topic_bytes(t) =~= x + (name + (y + z)));
    lemma_split_at(s, pos, x, name + (y + z));
    lemma_split_at(s, pos + 2, name, y + z);
    lemma_split_at(s, pos + 2 + nl, y, z);
    lemma_msg_partitions_roundtrip(s, pos + 2 + nl + 4, t.partitions);
}

proof fn lemma_msg_topics_roundtrip(s: Seq<u8>, pos: int, ts: Seq<ProduceTopicView>)
    requires
        forall|i: int| 0 <= i < ts.len() ==> msg_topic_fits(#[trigger] ts[i]),
        0 <= pos,
        pos + msg_topics_bytes(ts).len() <= s.len(),
        s.subrange(pos, pos + msg_topics_bytes(ts).len()) == msg_topics_bytes(ts),
    ensures
        parse_msg_topics_at(s, pos, ts.len()) == Some((ts, pos + msg_topics_bytes(ts).len())),
    decreases ts.len(),
{
    if ts.len() > 0 {
        let init = ts.drop_last();
        let a = msg_topics_bytes(init);
        let b = msg_topic_bytes(ts.last());
        lemma_split_at(s, pos, a, b);
        assert forall|i: int| 0 <= i < init.len() implies msg_topic_fits(#[trigger] init[i]) by {
            assert(init[i] == ts[i]);
        }
        assert(msg_topic_fits(ts[ts.len() - 1]));
        lemma_msg_topics_roundtrip(s, pos, init);
        lemma_msg_topic_roundtrip(s, pos + a.len(), ts.last());
        assert(init.push(ts.last()) =~= ts);
    }
}

proof fn lemma_msg_produce_roundtrip(s: Seq<u8>, pos: int, r: ProduceRequestView)
    requires
        msg_produce_fits(r),
        0 <= pos,
        pos + msg_produce_bytes(r).len() <= s.len(),
        s.subrange(pos, pos + msg_produce_bytes(r).len()) == msg_produce_bytes(r),
    ensures
        parse_msg_produce_at(s, pos) == Some(Ok::<ProduceRequestView, ParseError>(r)),
{
    let a = u64_be(r.transactional_id);
    let b = u32_be(ack_code(r.acks));
    let c = u64_be(r.timeout_ms);
    let d = u16_be(r.topics.len() as u16);
    let e = msg_topics_bytes(r.topics);
    lemma_u64_be_roundtrip(r.transactional_id);
    lemma_u32_be_roundtrip(ack_code(r.acks));
    lemma_ack_code_roundtrip(r.acks, 0);
    lemma_u64_be_roundtrip(r.timeout_ms);
    lemma_u16_be_roundtrip(r.topics.len() as u16);
    assert(msg_produce_bytes(r) =~= a + (b + (c + (d + e))));
    lemma_split_at(s, pos, a, b + (c + (d + e)));
    lemma_split_at(s, pos + 8, b, c + (d + e));
    lemma_split_at(s, pos + 12, c, d + e);
    lemma_split_at(s, pos + 20, d, e);
    lemma_msg_topics_roundtrip(s, pos + 22, r.topics);
}

proof fn lemma_msg_client_id_roundtrip(s: Seq<u8>, c: Option<Seq<char>>)
    requires
        c matches Some(name) ==> encode_utf8(name).len() < 0x8000,
        16 + client_id_bytes(c).len() <= s.len(),
        s.subrange(16, 16 + client_id_bytes(c).len() as int) == client_id_bytes(c),
    ensures
        parse_msg_client_id(s) == Some(
            Ok::<(Option<Seq<char>>, int), ParseError>((c, 16 + client_id_bytes(c).len() as int)),
        ),
{
    match c {
        Some(name) => {
            let bytes = encode_utf8(name);
            let lenb = u16_be(byte_len(name) as u16);
            lemma_u16_be_roundtrip(byte_len(name) as u16);
            encode_utf8_valid_utf8(name);
            encode_utf8_decode_utf8(name);
            lemma_split_at(s, 16, lenb, bytes);
        },
        None => {
            lemma_u16_be_roundtrip(0xffff);
        },
    }
}

/// How `parse_message` reads bytes whose parts are known.
proof fn lemma_parse_message_parts(
    s: Seq<u8>,
    size: u32,
    h: MessageHeaderView,
    pos: int,
    r: ProduceRequestView,
)
    requires
        18 <= s.len(),
        h.api_key == MessageApiKey::Produce,
        crate::wire::be_u32(s.subrange(0, 4)) == size,
        crate::wire::be_u32(s.subrange(4, 8)) == message_api_key_code(h.api_key),
        crate::wire::be_u32(s.subrange(8, 12)) == h.api_version,
        crate::wire::be_u32(s.subrange(12, 16)) == h.correlation_id,
        parse_msg_client_id(s) == Some(Ok::<(Option<Seq<char>>, int), ParseError>((h.client_id, pos))),
        parse_msg_produce_at(s, pos) == Some(Ok::<ProduceRequestView, ParseError>(r)),
    ensures
        parse_message(s) == Some(
            Ok::<MessageView, ParseError>(
                MessageView { size, header: h, body: MessageBodyView::Produce(r) },
            ),
        ),
{
    lemma_message_api_key_code_roundtrip(h.api_key, 0);
}

/// Where the parts of a produce message lie in its bytes.
proof fn lemma_message_layout(size: u32, h: MessageHeaderView, r: ProduceRequestView)
    ensures
        ({
            let s = message_bytes(size, h, r);
            let cid = client_id_bytes(h.client_id);
            let body = msg_produce_bytes(r);
            &&& s.len() == 16 + cid.len() + body.len()
            &&& crate::wire::be_u32(s.subrange(0, 4)) == size
            &&& crate::wire::be_u32(s.subrange(4, 8)) == message_api_key_code(h.api_key)
            &&& crate::wire::be_u32(s.subrange(8, 12)) == h.api_version
            &&& crate::wire::be_u32(s.subrange(12, 16)) == h.correlation_id
            &&& s.subrange(16, 16 + cid.len() as int) == cid
            &&& s.subrange(16 + cid.len() as int, 16 + cid.len() + body.len() as int) == body
        }),
{
    let s = message_bytes(size, h, r);
    let sz = u32_be(size);
    let k = u32_be(message_api_key_code(h.api_key));
    let v = u32_be(h.api_version);
    let c = u32_be(h.correlation_id);
    let cid = client_id_bytes(h.client_id);
    let body = msg_produce_bytes(r);
    lemma_u32_be_roundtrip(size);
    lemma_u32_be_roundtrip(message_api_key_code(h.api_key));
    lemma_u32_be_roundtrip(h.api_version);
    lemma_u32_be_roundtrip(h.correlation_id);
    assert(s =~= sz + (k + (v + (c + (cid + body)))));
    assert(s.subrange(0, s.len() as int) =~= s);
    lemma_split_at(s, 0, sz, k + (v + (c + (cid + body))));
    lemma_split_at(s, 4, k, v + (c + (cid + body)));
    lemma_split_at(s, 8, v, c + (cid + body));
    lemma_split_at(s, 12, c, cid + body);
    lemma_split_at(s, 16, cid, body);
}

/// Parsing the bytes of a produce message gives back its size field, its
/// header and its body, the timeout in milliseconds unchanged. This holds
/// for every message whose lengths fit their fields (see `msg_header_fits`
/// and `msg_produce_fits`).
pub proof fn lemma_message_roundtrip(size: u32, h: MessageHeaderView, r: ProduceRequestView)
    requires
        msg_header_fits(h),
        msg_produce_fits(r),
    ensures
        parse_message(message_bytes(size, h, r)) == Some(
            Ok::<MessageView, ParseError>(
                MessageView { size, header: h, body: MessageBodyView::Produce(r) },
            ),
        ),
{
    let s = message_bytes(size, h, r);
    let cid = client_id_bytes(h.client_id);
    lemma_message_layout(size, h, r);
    lemma_msg_client_id_roundtrip(s, h.client_id);
    lemma_msg_produce_roundtrip(s, 16 + cid.len() as int, r);
    lemma_parse_message_parts(s, size, h, 16 + cid.len() as int, r);
}

} // verus!
