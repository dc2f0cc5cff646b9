//! Decoding an encoded produce frame gives the frame back.

use vstd::prelude::*;
use vstd::utf8::{encode_utf8, encode_utf8_valid_utf8, encode_utf8_decode_utf8};
use crate::protocol::{FrameView, FrameBodyView, frame_bytes, frame_payload, produce_request_bytes, topics_bytes, topic_bytes, partitions_bytes, partition_bytes};
use crate::protocol::codec::{ParseError, parse_frame, parse_client_id, parse_produce_at, parse_topics_at, parse_topic_at, parse_partitions_at, parse_partition_at};
use crate::protocol::header::{ApiKey, RequestHeaderView, client_id_bytes, api_key_code};
use crate::protocol::produce::{ProducePartitionView, ProduceRequestView, ProduceTopicView, acks_code, byte_len};
use crate::storage::record_batch::{batch_consistent, batch_header_bytes, lemma_batch_roundtrip};
use crate::wire::{u16_be, u32_be, u64_be, lemma_u16_be_roundtrip, lemma_u32_be_roundtrip, lemma_u64_be_roundtrip};

verus! {

/// A partition that survives encoding: its batch length agrees with its
/// records, and its wire length fits the 32-bit length field.
pub open spec fn partition_fits(p: ProducePartitionView) -> bool {
    &&& batch_consistent(p.records)
    &&& 16 + p.records.records.len() <= u32::MAX
}

/// A topic that survives encoding: its name fits the 16-bit length, its
/// partitions the 32-bit count, and each partition fits.
pub open spec fn topic_fits(t: ProduceTopicView) -> bool {
    &&& encode_utf8(t.topic).len() < 0x1_0000
    &&& t.partitions.len() <= u32::MAX
    &&& forall|i: int| 0 <= i < t.partitions.len() ==> partition_fits(#[trigger] t.partitions[i])
}

/// A produce request that survives encoding: its topics fit the 16-bit
/// count and each topic fits.
pub open spec fn produce_fits(r: ProduceRequestView) -> bool {
    &&& r.topics.len() < 0x1_0000
    &&& forall|i: int| 0 <= i < r.topics.len() ==> topic_fits(#[trigger] r.topics[i])
}

/// A header that survives encoding: a produce request, and a client id short
/// enough for its length to read as non-negative.
pub open spec fn header_fits(h: RequestHeaderView) -> bool {
    &&& h.api_key == ApiKey::Produce
    &&& h.client_id matches Some(c) ==> encode_utf8(c).len() < 0x8000
}

/// Bytes that hold `a + b` at `pos` hold `a` at `pos` and `b` right after.
pub(crate) proof fn lemma_split_at(s: Seq<u8>, pos: int, a: Seq<u8>, b: Seq<u8>)
    requires
        0 <= pos,
        pos + a.len() + b.len() <= s.len(),
        s.subrange(pos, pos + a.len() + b.len()) == a + b,
    ensures
        s.subrange(pos, pos + a.len()) == a,
        s.subrange(pos + a.len(), pos + a.len() + b.len()) == b,
{
    assert forall|i: int| 0 <= i < a.len() implies s.subrange(pos, pos + a.len())[i] == a[i] by {
        assert(s.subrange(pos, pos + a.len() + b.len())[i] == (a + b)[i]);
    }
    assert forall|i: int| 0 <= i < b.len() implies s.subrange(
        pos + a.len(),
        pos + a.len() + b.len(),
    )[i] == b[i] by {
        assert(s.subrange(pos, pos + a.len() + b.len())[a.len() + i] == (a + b)[a.len() + i]);
        assert((a + b)[a.len() + i] == b[i]);
        assert(s.subrange(pos + a.len(), pos + a.len() + b.len())[i] == s[pos + a.len() + i]);
        assert(s.subrange(pos, pos + a.len() + b.len())[a.len() + i] == s[pos + a.len() + i]);
    }
    assert(s.subrange(pos, pos + a.len()) =~= a);
    assert(s.subrange(pos + a.len(), pos + a.len() + b.len()) =~= b);
}

proof fn lemma_partition_roundtrip(s: Seq<u8>, pos: int, p: ProducePartitionView)
    requires
        partition_fits(p),
        0 <= pos,
        pos + partition_bytes(p).len() <= s.len(),
        s.subrange(pos, pos + partition_bytes(p).len()) == partition_bytes(p),
    ensures
        parse_partition_at(s, pos) == Some((p, pos + partition_bytes(p).len())),
{
    let n = p.records.records.len();
    let x = u16_be(p.index);
    let y = u32_be((16 + n) as u32);
    let z = batch_header_bytes(p.records) + p.records.records;
    lemma_u16_be_roundtrip(p.index);
    lemma_u32_be_roundtrip((16 + n) as u32);
    assert(partition_bytes(p) =~= x + (y + z));
    lemma_split_at(s, pos, x, y + z);
    lemma_split_at(s, pos + 2, y, z);
    assert(be_u32_of(s, pos + 2) == 16 + n);
    assert(batch_header_bytes(p.records).len() == 16);
    let batch = s.subrange(pos + 6, pos + 6 + 16 + n);
    assert(batch.subrange(0, 16 + n as int) =~= batch);
    lemma_batch_roundtrip(batch, 0, p.records);
}

spec fn be_u32_of(s: Seq<u8>, pos: int) -> int {
    crate::wire::be_u32(s.subrange(pos, pos + 4)) as int
}

proof fn lemma_partitions_roundtrip(s: Seq<u8>, pos: int, ps: Seq<ProducePartitionView>)
    requires
        forall|i: int| 0 <= i < ps.len() ==> partition_fits(#[trigger] ps[i]),
        0 <= pos,
        pos + partitions_bytes(ps).len() <= s.len(),
        s.subrange(pos, pos + partitions_bytes(ps).len()) == partitions_bytes(ps),
    ensures
        parse_partitions_at(s, pos, ps.len()) == Some((ps, pos + partitions_bytes(ps).len())),
    decreases ps.len(),
{
    if ps.len() > 0 {
        let init = ps.drop_last();
        let a = partitions_bytes(init);
        let b = partition_bytes(ps.last());
        lemma_split_at(s, pos, a, b);
        assert forall|i: int| 0 <= i < init.len() implies partition_fits(#[trigger] init[i]) by {
            assert(init[i] == ps[i]);
        }
        assert(partition_fits(ps[ps.len() - 1]));
        lemma_partitions_roundtrip(s, pos, init);
        lemma_partition_roundtrip(s, pos + a.len(), ps.last());
        assert(init.push(ps.last()) =~= ps);
    }
}

proof fn lemma_topic_roundtrip(s: Seq<u8>, pos: int, t: ProduceTopicView)
    requires
        topic_fits(t),
        0 <= pos,
        pos + topic_bytes(t).len() <= s.len(),
        s.subrange(pos, pos + topic_bytes(t).len()) == topic_bytes(t),
    ensures
        parse_topic_at(s, pos) == Some((t, pos + topic_bytes(t).len())),
{
    let name = encode_utf8(t.topic);
    let nl = name.len();
    let x = u16_be(byte_len(t.topic) as u16);
    let y = u32_be(t.partitions.len() as u32);
    let z = partitions_bytes(t.partitions);
    lemma_u16_be_roundtrip(byte_len(t.topic) as u16);
    lemma_u32_be_roundtrip(t.partitions.len() as u32);
    encode_utf8_valid_utf8(t.topic);
    encode_utf8_decode_utf8(t.topic);
    assert(topic_bytes(t) =~= x + (name + (y + z)));
    lemma_split_at(s, pos, x, name + (y + z));
    lemma_split_at(s, pos + 2, name, y + z);
    lemma_split_at(s, pos + 2 + nl, y, z);
    lemma_partitions_roundtrip(s, pos + 2 + nl + 4, t.partitions);
}

proof fn lemma_topics_roundtrip(s: Seq<u8>, pos: int, ts: Seq<ProduceTopicView>)
    requires
        forall|i: int| 0 <= i < ts.len() ==> topic_fits(#[trigger] ts[i]),
        0 <= pos,
        pos + topics_bytes(ts).len() <= s.len(),
        s.subrange(pos, pos + topics_bytes(ts).len()) == topics_bytes(ts),
    ensures
        parse_topics_at(s, pos, ts.len()) == Some((ts, pos + topics_bytes(ts).len())),
    decreases ts.len(),
{
    if ts.len() > 0 {
        let init = ts.drop_last();
        let a = topics_bytes(init);
        let b = topic_bytes(ts.last());
        lemma_split_at(s, pos, a, b);
        assert forall|i: int| 0 <= i < init.len() implies topic_fits(#[trigger] init[i]) by {
            assert(init[i] == ts[i]);
        }
        assert(topic_fits(ts[ts.len() - 1]));
        lemma_topics_roundtrip(s, pos, init);
        lemma_topic_roundtrip(s, pos + a.len(), ts.last());
        assert(init.push(ts.last()) =~= ts);
    }
}

proof fn lemma_produce_roundtrip(s: Seq<u8>, pos: int, r: ProduceRequestView)
    requires
        produce_fits(r),
        0 <= pos,
        pos + produce_request_bytes(r).len() <= s.len(),
        s.subrange(pos, pos + produce_request_bytes(r).len()) == produce_request_bytes(r),
    ensures
        parse_produce_at(s, pos) == Some(Ok::<ProduceRequestView, ParseError>(r)),
{
    let a = u64_be(r.transactional_id);
    let b = u32_be(acks_code(r.acks));
    let c = u64_be(r.timeout_ms);
    let d = u16_be(r.topics.len() as u16);
    let e = topics_bytes(r.topics);
    lemma_u64_be_roundtrip(r.transactional_id);
    lemma_u32_be_roundtrip(acks_code(r.acks));
    lemma_u64_be_roundtrip(r.timeout_ms);
    lemma_u16_be_roundtrip(r.topics.len() as u16);
    assert(produce_request_bytes(r) =~= a + (b + (c + (d + e))));
    lemma_split_at(s, pos, a, b + (c + (d + e)));
    lemma_split_at(s, pos + 8, b, c + (d + e));
    lemma_split_at(s, pos + 12, c, d + e);
    lemma_split_at(s, pos + 20, d, e);
    lemma_topics_roundtrip(s, pos + 22, r.topics);
}

proof fn lemma_client_id_roundtrip(s: Seq<u8>, c: Option<Seq<char>>)
    requires
        c matches Some(name) ==> encode_utf8(name).len() < 0x8000,
        16 + client_id_bytes(c).len() <= s.len(),
        s.subrange(16, 16 + client_id_bytes(c).len() as int) == client_id_bytes(c),
    ensures
        parse_client_id(s) == Some(
            Ok::<(Option<Seq<char>>, int), ParseError>((c, 16 + client_id_bytes(c).len() as int)),
        ),
{
    match c {
        Some(name) => {
            let bytes = encode_utf8(name);
            let lenb = u16_be(byte_len(name) as u16);
            lemma_u16_be_roundtrip(byte_len(name) as u16);
            encode_utf8_valid_utf8(name);
            encode_utf8_decode_utf8(name);
            lemma_split_at(s, 16, lenb, bytes);
        },
        None => {
            lemma_u16_be_roundtrip(0xffff);
        },
    }
}

/// How `parse_frame` reads bytes whose parts are known.
proof fn lemma_parse_frame_parts(
    s: Seq<u8>,
    size: u32,
    h: RequestHeaderView,
    pos: int,
    r: ProduceRequestView,
)
    requires
        18 <= s.len(),
        h.api_key == ApiKey::Produce,
        crate::wire::be_u32(s.subrange(0, 4)) == size,
        crate::wire::be_u32(s.subrange(4, 8)) == api_key_code(h.api_key),
        crate::wire::be_u32(s.subrange(8, 12)) == h.api_version,
        crate::wire::be_u32(s.subrange(12, 16)) == h.correlation_id,
        parse_client_id(s) == Some(Ok::<(Option<Seq<char>>, int), ParseError>((h.client_id, pos))),
        parse_produce_at(s, pos) == Some(Ok::<ProduceRequestView, ParseError>(r)),
    ensures
        parse_frame(s) == Some(
            Ok::<FrameView, ParseError>(
                FrameView { size, header: h, body: FrameBodyView::Produce(r) },
            ),
        ),
{
}

/// Where the parts of a produce frame lie in its bytes.
proof fn lemma_frame_layout(h: RequestHeaderView, r: ProduceRequestView)
    ensures
        ({
            let s = frame_bytes(h, r);
            let cid = client_id_bytes(h.client_id);
            let body = produce_request_bytes(r);
            &&& s.len() == 16 + cid.len() + body.len()
            &&& crate::wire::be_u32(s.subrange(0, 4)) == frame_payload(h, r).len() as u32
            &&& crate::wire::be_u32(s.subrange(4, 8)) == api_key_code(h.api_key)
            &&& crate::wire::be_u32(s.subrange(8, 12)) == h.api_version
            &&& crate::wire::be_u32(s.subrange(12, 16)) == h.correlation_id
            &&& s.subrange(16, 16 + cid.len() as int) == cid
            &&& s.subrange(16 + cid.len() as int, 16 + cid.len() + body.len() as int) == body
        }),
{
    let s = frame_bytes(h, r);
    let sz = u32_be(frame_payload(h, r).len() as u32);
    let k = u32_be(api_key_code(h.api_key));
    let v = u32_be(h.api_version);
    let c = u32_be(h.correlation_id);
    let cid = client_id_bytes(h.client_id);
    let body = produce_request_bytes(r);
    lemma_u32_be_roundtrip(frame_payload(h, r).len() as u32);
    lemma_u32_be_roundtrip(api_key_code(h.api_key));
    lemma_u32_be_roundtrip(h.api_version);
    lemma_u32_be_roundtrip(h.correlation_id);
    assert(s =~= sz + (k + (v + (c + (cid + body)))));
    assert(s.subrange(0, s.len() as int) =~= s);
    lemma_split_at(s, 0, sz, k + (v + (c + (cid + body))));
    lemma_split_at(s, 4, k, v + (c + (cid + body)));
    lemma_split_at(s, 8, v, c + (cid + body));
    lemma_split_at(s, 12, c, cid + body);
    lemma_split_at(s, 16, cid, body);
}

/// Decoding the bytes of a produce frame gives back its header and request;
/// the size field reads as the length of what follows it. This holds for
/// every frame whose lengths fit their fields (see `header_fits` and
/// `produce_fits`).
pub proof fn lemma_frame_roundtrip(h: RequestHeaderView, r: ProduceRequestView)
    requires
        header_fits(h),
        produce_fits(r),
    ensures
        parse_frame(frame_bytes(h, r)) == Some(
            Ok::<FrameView, ParseError>(
                FrameView {
                    size: frame_payload(h, r).len() as u32,
                    header: h,
                    body: FrameBodyView::Produce(r),
                },
            ),
        ),
{
    let s = frame_bytes(h, r);
    let cid = client_id_bytes(h.client_id);
    lemma_frame_layout(h, r);
    lemma_client_id_roundtrip(s, h.client_id);
    lemma_produce_roundtrip(s, 16 + cid.len() as int, r);
    lemma_parse_frame_parts(s, frame_payload(h, r).len() as u32, h, 16 + cid.len() as int, r);
}

} // verus!
