//! The first message format: a size, a header, and a produce body whose
//! partitions carry raw batch bytes.

pub mod ack;
pub mod body;
pub mod consumer;
pub mod header;
pub mod parser;
pub mod produce;
pub mod roundtrip;

use vstd::prelude::*;
use vstd::utf8::encode_utf8;
use bytes::Bytes;
use crate::buffer::{bytes_view, bytes_as_slice, bytes_from_vec};
use crate::message::ack::ack_code;
use crate::message::body::{MessageBody, ProduceRequest, ProduceRequestView};
use crate::message::header::{MessageHeader, MessageHeaderView, message_api_key_code};
use crate::message::produce::{ProducePartition, ProducePartitionView, ProduceTopic, ProduceTopicView};
use crate::protocol::produce::byte_len;
use crate::protocol::header::client_id_bytes;
use crate::wire::{u16_be, u32_be, u64_be, put_u16_be, put_u32_be, put_u64_be};
use crate::message::parser::{MessageParser, ParseError, parse_message, message_result_view};

verus! {

pub struct Message {
    pub size: u32,
    pub header: MessageHeader,
    pub body: MessageBody,
}

/// A body as plain values; only a produce body is spelled out.
pub enum MessageBodyView {
    Produce(ProduceRequestView),
    NotProduce,
}

/// A message as plain values.
pub struct MessageView {
    pub size: u32,
    pub header: MessageHeaderView,
    pub body: MessageBodyView,
}

impl View for Message {
    type V = MessageView;

    open spec fn view(&self) -> MessageView {
        MessageView {
            size: self.size,
            header: self.header@,
            body: match self.body {
                MessageBody::Produce(req) => MessageBodyView::Produce(req@),
                _ => MessageBodyView::NotProduce,
            },
        }
    }
}

/// A partition on the wire: its id, its batch's length, its batch bytes.
pub open spec fn msg_partition_bytes(p: ProducePartitionView) -> Seq<u8> {
    u16_be(p.partition_id) + u32_be(p.batch.len() as u32) + p.batch
}

/// Partitions one after another.
pub open spec fn msg_partitions_bytes(ps: Seq<ProducePartitionView>) -> Seq<u8>
    decreases ps.len(),
{
    if ps.len() == 0 {
        Seq::empty()
    } else {
        msg_partitions_bytes(ps.drop_last()) + msg_partition_bytes(ps.last())
    }
}

/// A topic on the wire: its name's length and UTF-8 bytes, its partition
/// count, its partitions.
pub open spec fn msg_topic_bytes(t: ProduceTopicView) -> Seq<u8> {
    u16_be(byte_len(t.topic) as u16) + encode_utf8(t.topic) + u32_be(t.partitions.len() as u32)
        + msg_partitions_bytes(t.partitions)
}

/// Topics one after another.
pub open spec fn msg_topics_bytes(ts: Seq<ProduceTopicView>) -> Seq<u8>
    decreases ts.len(),
{
    if ts.len() == 0 {
        Seq::empty()
    } else {
        msg_topics_bytes(ts.drop_last()) + msg_topic_bytes(ts.last())
    }
}

/// A produce body on the wire: transactional id, ack code, timeout in
/// milliseconds, topic count, topics.
pub open spec fn msg_produce_bytes(r: ProduceRequestView) -> Seq<u8> {
    u64_be(r.transactional_id) + u32_be(ack_code(r.acks)) + u64_be(r.timeout_ms) + u16_be(
        r.topics.len() as u16,
    ) + msg_topics_bytes(r.topics)
}

/// The size field and header on the wire: size, API code, version and
/// correlation id, then the client id's length and bytes, or a length of -1
/// for none.
pub open spec fn msg_header_bytes(size: u32, h: MessageHeaderView) -> Seq<u8> {
    u32_be(size) + u32_be(message_api_key_code(h.api_key)) + u32_be(h.api_version) + u32_be(
        h.correlation_id,
    ) + client_id_bytes(h.client_id)
}

/// A produce message on the wire: size field and header, then the body.
pub open spec fn message_bytes(size: u32, h: MessageHeaderView, r: ProduceRequestView) -> Seq<u8> {
    msg_header_bytes(size, h) + msg_produce_bytes(r)
}

/// Appends a partition.
fn put_msg_partition(buf: &mut Vec<u8>, p: &ProducePartition)
    ensures
        final(buf)@ == old(buf)@ + msg_partition_bytes(p@),
{
    let batch = bytes_as_slice(&p.batch);
    put_u16_be(buf, p.partition_id);
    put_u32_be(buf, batch.len() as u32);
    buf.extend_from_slice(batch);
    assert(final(buf)@ =~= old(buf)@ + msg_partition_bytes(p@));
}

/// Appends a topic.
fn put_msg_topic(buf: &mut Vec<u8>, t: &ProduceTopic)
    ensures
        final(buf)@ == old(buf)@ + msg_topic_bytes(t@),
{
    let name = t.topic.as_str().as_bytes();
    put_u16_be(buf, name.len() as u16);
    buf.extend_from_slice(name);
    put_u32_be(buf, t.partitions.len() as u32);
    let ghost ps = t@.partitions;
    let ghost before_partitions = buf@;
    let mut j: usize = 0;
    while j < t.partitions.len()
        invariant
            ps == t@.partitions,
            j <= ps.len(),
            buf@ == before_partitions + msg_partitions_bytes(ps.take(j as int)),
        decreases ps.len() - j,
    {
        put_msg_partition(buf, &t.partitions[j]);
        proof {
            assert(ps.take(j as int + 1).drop_last() =~= ps.take(j as int));
            assert(ps.take(j as int + 1).last() == ps[j as int]);
        }
        j = j + 1;
    }
    assert(ps.take(ps.len() as int) =~= ps);
    assert(final(buf)@ =~= old(buf)@ + msg_topic_bytes(t@));
}

/// Appends a produce body.
fn put_msg_produce(buf: &mut Vec<u8>, req: &ProduceRequest)
    ensures
        final(buf)@ == old(buf)@ + msg_produce_bytes(req@),
{
    put_u64_be(buf, req.transactional_id);
    put_u32_be(buf, u32::from(req.acks));
    put_u64_be(buf, req.timeout_ms);
    put_u16_be(buf, req.topics.len() as u16);
    let ghost ts = req@.topics;
    let ghost before_topics = buf@;
    let mut i: usize = 0;
    while i < req.topics.len()
        invariant
            ts == req@.topics,
            i <= ts.len(),
            buf@ == before_topics + msg_topics_bytes(ts.take(i as int)),
        decreases ts.len() - i,
    {
        put_msg_topic(buf, &req.topics[i]);
        proof {
            assert(ts.take(i as int + 1).drop_last() =~= ts.take(i as int));
            assert(ts.take(i as int + 1).last() == ts[i as int]);
        }
        i = i + 1;
    }
    assert(ts.take(ts.len() as int) =~= ts);
    assert(final(buf)@ =~= old(buf)@ + msg_produce_bytes(req@));
}

impl Message {
    /// The message's bytes: its size field as it stands, its header, and
    /// its produce body, each field appended in turn. Only produce bodies
    /// are encoded.
    pub fn encode(&self) -> (r: Bytes)
        requires
            self.body is Produce,
        ensures
            self@.body matches MessageBodyView::Produce(req) && bytes_view(r) == message_bytes(
                self.size,
                self@.header,
                req,
            ),
    {
        let mut buf: Vec<u8> = Vec::new();
        put_u32_be(&mut buf, self.size);
        put_u32_be(&mut buf, u32::from(self.header.api_key));
        put_u32_be(&mut buf, self.header.api_version);
        put_u32_be(&mut buf, self.header.correlation_id);
        match &self.header.client_id {
            Some(client_id) => {
                let bytes = client_id.as_str().as_bytes();
                put_u16_be(&mut buf, bytes.len() as u16);
                buf.extend_from_slice(bytes);
            },
            None => put_u16_be(&mut buf, 0xffff),
        }
        let ghost header = buf@;
        assert(header =~= msg_header_bytes(self.size, self@.header));
        match &self.body {
            MessageBody::Produce(req) => put_msg_produce(&mut buf, req),
            _ => {
                proof {
                    assert(false);
                }
            },
        }
        bytes_from_vec(buf)
    }

    /// Parses a message from its bytes.
    pub fn decode(buf: Bytes) -> (r: Result<Self, ParseError>)
        requires
            parse_message(bytes_view(buf)) is Some,
        ensures
            parse_message(bytes_view(buf)) == Some(message_result_view(r)),
    {
        let mut parser = MessageParser;
        parser.parse(buf)
    }

    /// Parses a message from its bytes, or says `None` where `decode` would
    /// panic: the bytes end before a field the parser reads, or the message
    /// is a fetch.
    pub fn decode_checked(buf: &Bytes) -> (r: Option<Result<Self, ParseError>>)
        ensures
            match r {
                None => parse_message(bytes_view(*buf)) is None,
                Some(res) => parse_message(bytes_view(*buf)) == Some(message_result_view(res)),
            },
    {
        let mut parser = MessageParser;
        parser.parse_checked(buf)
    }
}

} // verus!
