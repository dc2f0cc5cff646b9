//! The request and response frames of the broker's wire protocol.

pub mod body;
pub mod codec;
pub mod error_codes;
pub mod fetch;
pub mod header;
pub mod metadata;
pub mod produce;
pub mod roundtrip;
pub mod size_laws;

use vstd::prelude::*;
use vstd::utf8::encode_utf8;
use bytes::Bytes;
use crate::buffer::{bytes_view, bytes_from_vec, bytes_as_slice};
use crate::protocol::body::{FrameBody, produce_request_size, produce_topic_sizes, produce_partition_sizes};
use crate::protocol::header::{RequestHeader, RequestHeaderView, header_bytes, request_header_size};
use crate::protocol::produce::{acks_code, byte_len, ProducePartition, ProducePartitionView, ProduceRequest, ProduceRequestView, ProduceTopic, ProduceTopicView};
use crate::size::sum_of;
use crate::storage::record_batch::batch_header_bytes;
use crate::wire::{u16_be, u32_be, u64_be, put_u16_be, put_u32_be, put_u64_be};

verus! {



#[derive(Debug)]
pub struct Frame {
    pub size: u32,
    pub header: RequestHeader,
    pub body: FrameBody,
}

/// A body as plain values; only a produce request is spelled out.
pub enum FrameBodyView {
    Produce(ProduceRequestView),
    NotProduce,
}

/// A frame as plain values.
pub struct FrameView {
    pub size: u32,
    pub header: RequestHeaderView,
    pub body: FrameBodyView,
}

impl View for Frame {
    type V = FrameView;

    open spec fn view(&self) -> FrameView {
        FrameView {
            size: self.size,
            header: self.header@,
            body: match self.body {
                FrameBody::Produce(req) => FrameBodyView::Produce(req@),
                _ => FrameBodyView::NotProduce,
            },
        }
    }
}

/// A partition of a produce request on the wire: index, then the batch's
/// wire length (16 + records, modulo 2^32), header and records.
pub open spec fn partition_bytes(p: ProducePartitionView) -> Seq<u8> {
    u16_be(p.index) + u32_be((16 + p.records.records.len()) as u32) + batch_header_bytes(p.records)
        + p.records.records
}

/// Partitions one after another.
pub open spec fn partitions_bytes(ps: Seq<ProducePartitionView>) -> Seq<u8>
    decreases ps.len(),
{
    if ps.len() == 0 {
        Seq::empty()
    } else {
        partitions_bytes(ps.drop_last()) + partition_bytes(ps.last())
    }
}

/// A topic on the wire: name length (modulo 2^16) and UTF-8 name, partition
/// count (modulo 2^32), partitions.
pub open spec fn topic_bytes(t: ProduceTopicView) -> Seq<u8> {
    u16_be(byte_len(t.topic) as u16) + encode_utf8(t.topic) + u32_be(t.partitions.len() as u32)
        + partitions_bytes(t.partitions)
}

/// Topics one after another.
pub open spec fn topics_bytes(ts: Seq<ProduceTopicView>) -> Seq<u8>
    decreases ts.len(),
{
    if ts.len() == 0 {
        Seq::empty()
    } else {
        topics_bytes(ts.drop_last()) + topic_bytes(ts.last())
    }
}

/// A produce request on the wire: transactional id, acks code, timeout in
/// milliseconds, topic count (modulo 2^16), topics.
pub open spec fn produce_request_bytes(r: ProduceRequestView) -> Seq<u8> {
    u64_be(r.transactional_id) + u32_be(acks_code(r.acks)) + u64_be(r.timeout_ms) + u16_be(
        r.topics.len() as u16,
    ) + topics_bytes(r.topics)
}

/// Header and produce request, after the size field.
pub open spec fn frame_payload(h: RequestHeaderView, r: ProduceRequestView) -> Seq<u8> {
    header_bytes(h) + produce_request_bytes(r)
}

/// A produce frame on the wire: the payload's length (modulo 2^32), then the
/// payload.
pub open spec fn frame_bytes(h: RequestHeaderView, r: ProduceRequestView) -> Seq<u8> {
    u32_be(frame_payload(h, r).len() as u32) + frame_payload(h, r)
}

/// Every string that a produce frame carries has fewer than 2^32 bytes.
pub open spec fn lengths_fit(h: RequestHeaderView, r: ProduceRequestView) -> bool {
    &&& (h.client_id matches Some(c) ==> encode_utf8(c).len() < 0x1_0000_0000)
    &&& forall|i: int| 0 <= i < r.topics.len() ==> encode_utf8(#[trigger] r.topics[i].topic).len() < 0x1_0000_0000
}

proof fn lemma_partitions_bytes_len(ps: Seq<ProducePartitionView>)
    ensures
        partitions_bytes(ps).len() == sum_of(ps, produce_partition_sizes()),
    decreases ps.len(),
{
    if ps.len() > 0 {
        lemma_partitions_bytes_len(ps.drop_last());
    }
}

proof fn lemma_topics_bytes_len(ts: Seq<ProduceTopicView>)
    requires
        forall|i: int| 0 <= i < ts.len() ==> encode_utf8(#[trigger] ts[i].topic).len() < 0x1_0000_0000,
    ensures
        topics_bytes(ts).len() == sum_of(ts, produce_topic_sizes()),
    decreases ts.len(),
{
    if ts.len() > 0 {
        let t = ts.last();
        assert(encode_utf8(ts[ts.len() - 1].topic).len() < 0x1_0000_0000);
        lemma_partitions_bytes_len(t.partitions);
        assert forall|i: int| 0 <= i < ts.drop_last().len() implies encode_utf8(
            #[trigger] ts.drop_last()[i].topic,
        ).len() < 0x1_0000_0000 by {
            assert(ts.drop_last()[i] == ts[i]);
        }
        lemma_topics_bytes_len(ts.drop_last());
    }
}

/// An encoded produce frame is 4 size bytes longer than the header's and
/// the body's sizes, as `RequestHeader::get_size` and `FrameBody::get_size`
/// count them.
pub proof fn lemma_frame_len_matches_sizes(h: RequestHeaderView, r: ProduceRequestView)
    requires
        lengths_fit(h, r),
    ensures
        frame_bytes(h, r).len() == 4 + request_header_size(h) + produce_request_size(r),
{
    lemma_topics_bytes_len(r.topics);
}

/// Appends a partition of a produce request.
fn put_partition(buf: &mut Vec<u8>, p: &ProducePartition)
    ensures
        final(buf)@ == old(buf)@ + partition_bytes(p@),
{
    put_u16_be(buf, p.index);
    let header = p.records.encode_header();
    let records = bytes_as_slice(&p.records.records);
    let batch_len = ((header.len() as u128) + (records.len() as u128)) as u32;
    put_u32_be(buf, batch_len);
    buf.extend_from_slice(&header);
    buf.extend_from_slice(records);
    assert(final(buf)@ =~= old(buf)@ + partition_bytes(p@));
}

/// Appends a topic of a produce request.
fn put_topic(buf: &mut Vec<u8>, t: &ProduceTopic)
    ensures
        final(buf)@ == old(buf)@ + topic_bytes(t@),
{
    let name = t.topic.as_str().as_bytes();
    put_u16_be(buf, name.len() as u16);
    buf.extend_from_slice(name);
    put_u32_be(buf, t.partitions.len() as u32);
    let ghost ps = t@.partitions;
    let ghost before_partitions = buf@;
    let mut j: usize = 0;
    while j < t.partitions.len()
        invariant
            ps == t@.partitions,
            j <= ps.len(),
            buf@ == before_partitions + partitions_bytes(ps.take(j as int)),
        decreases ps.len() - j,
    {
        put_partition(buf, &t.partitions[j]);
        proof {
            assert(ps.take(j as int + 1).drop_last() =~= ps.take(j as int));
            assert(ps.take(j as int + 1).last() == ps[j as int]);
        }
        j = j + 1;
    }
    assert(ps.take(ps.len() as int) =~= ps);
    assert(final(buf)@ =~= old(buf)@ + topic_bytes(t@));
}

/// Appends a produce request.
fn put_produce_request(buf: &mut Vec<u8>, req: &ProduceRequest)
    ensures
        final(buf)@ == old(buf)@ + produce_request_bytes(req@),
{
    put_u64_be(buf, req.transactional_id);
    put_u32_be(buf, u32::from(req.acks));
    put_u64_be(buf, req.timeout_ms);
    put_u16_be(buf, req.topics.len() as u16);
    let ghost ts = req@.topics;
    let ghost before_topics = buf@;
    let mut i: usize = 0;
    while i < req.topics.len()
        invariant
            ts == req@.topics,
            i <= ts.len(),
            buf@ == before_topics + topics_bytes(ts.take(i as int)),
        decreases ts.len() - i,
    {
        put_topic(buf, &req.topics[i]);
        proof {
            assert(ts.take(i as int + 1).drop_last() =~= ts.take(i as int));
            assert(ts.take(i as int + 1).last() == ts[i as int]);
        }
        i = i + 1;
    }
    assert(ts.take(ts.len() as int) =~= ts);
    assert(final(buf)@ =~= old(buf)@ + produce_request_bytes(req@));
}

/// Appends a request header.
fn put_header(buf: &mut Vec<u8>, h: &RequestHeader)
    ensures
        final(buf)@ == old(buf)@ + header_bytes(h@),
{
    put_u32_be(buf, u32::from(h.api_key));
    put_u32_be(buf, h.api_version);
    put_u32_be(buf, h.correlation_id);
    match &h.client_id {
        Some(client_id) => {
            let bytes = client_id.as_str().as_bytes();
            put_u16_be(buf, bytes.len() as u16);
            buf.extend_from_slice(bytes);
        },
        None => put_u16_be(buf, 0xffff),
    }
    assert(final(buf)@ =~= old(buf)@ + header_bytes(h@));
}

impl Frame {
    /// The frame's bytes. Only produce requests can be encoded.
    pub fn encode(&self) -> (r: Bytes)
        requires
            self.body is Produce,
        ensures
            self@.body matches FrameBodyView::Produce(req) && bytes_view(r) == frame_bytes(
                self@.header,
                req,
            ),
    {
        let mut buf: Vec<u8> = Vec::new();
        put_header(&mut buf, &self.header);
        match &self.body {
            FrameBody::Produce(req) => put_produce_request(&mut buf, req),
            _ => {
                proof {
                    assert(false);
                }
            },
        }
        let size = buf.len() as u32;
        let mut out: Vec<u8> = Vec::new();
        put_u32_be(&mut out, size);
        out.append(&mut buf);
        bytes_from_vec(out)
    }
}

} // verus!
