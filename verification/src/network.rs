//! What a connection makes of the bytes of a request it has read.

use vstd::prelude::*;
use bytes::Bytes;
use crate::buffer::bytes_view;
use crate::protocol::Frame;
use crate::protocol::codec::{ParseError, RequestDecoder, parse_frame, frame_result_view};

verus! {

/// Why a connection stops serving requests.
#[derive(Debug)]
pub enum ConnectionError {
    /// Reading or writing the stream failed.
    Io(std::io::Error),
    /// The request's bytes are not a frame.
    Protocol(ParseError),
}

/// Decodes a request from the `size` bytes that were read for it; a bad
/// request is a protocol error. `None` where decoding would panic: the
/// bytes end before a field the decoder reads.
pub fn decode_request(buf: &Bytes) -> (r: Option<Result<Frame, ConnectionError>>)
    ensures
        r is None <==> parse_frame(bytes_view(*buf)) is None,
        r matches Some(Ok(f)) ==> parse_frame(bytes_view(*buf)) == Some(frame_result_view(Ok(f))),
        r matches Some(Err(e)) ==> e matches ConnectionError::Protocol(p) && parse_frame(
            bytes_view(*buf),
        ) == Some(frame_result_view(Err(p))),
{
    let mut decoder = RequestDecoder;
    match decoder.parse_checked(buf) {
        None => None,
        Some(Ok(frame)) => Some(Ok(frame)),
        Some(Err(e)) => Some(Err(ConnectionError::Protocol(e))),
    }
}

} // verus!
