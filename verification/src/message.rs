//! A header as a whole message: the framing around the record's segment.

use vstd::prelude::*;
use vstd::pervasive::unreached;
use vstd::string::*;
use vstd::utf8::*;
use bytes::Bytes;
use capnp::serialize::BufferSegments;
use crate::buffer::{contents, freeze, with_capacity};
use crate::decode::read_header;
use crate::encode::write_record;
use crate::error::{DecodeError, EncodeError};
use crate::framing::{
    framed_bytes, segment, segment_at, single_segment_message, well_framed, write_single_segment,
};
use crate::layout::{encodable, record_segment, segment_header, HeaderText};

verus! {

/// The header that a buffer holds: the framing is checked first, then the
/// record is read from the first segment. Segments after the first take no
/// part, since no pointer of a record leaves the segment it stands in.
pub open spec fn message_header(bytes: Seq<u8>) -> Result<HeaderText, DecodeError> {
    if !well_framed(bytes) {
        Err(DecodeError::Framing)
    } else {
        segment_header(segment_at(bytes, 0))
    }
}

/// The message that a header is serialized as: one segment, which holds
/// the record.
pub open spec fn header_message(key: Seq<char>, value: Seq<char>) -> Seq<u8> {
    single_segment_message(record_segment(encode_utf8(key), encode_utf8(value)))
}

/// Reads the header of a framed message. The two strings borrow from the
/// message's buffer.
pub(crate) fn read_message(
    segments: &BufferSegments<Bytes>,
) -> (header: Result<(&str, &str), DecodeError>)
    requires
        well_framed(framed_bytes(*segments)),
    ensures
        match header {
            Ok(h) => message_header(framed_bytes(*segments)) == Ok::<HeaderText, DecodeError>(
                HeaderText { key: h.0@, value: h.1@ },
            ),
            Err(e) => message_header(framed_bytes(*segments)) == Err::<HeaderText, DecodeError>(
                e,
            ),
        },
{
    match segment(segments, 0) {
        Some(first) => read_header(first),
        None => unreached(),
    }
}

/// Writes a header as a message. The size of the message is computed
/// first, so that the buffer is allocated once, at that size.
pub fn write_message(key: &str, value: &str) -> (message: Result<Bytes, EncodeError>)
    ensures
        match message {
            Ok(data) => encodable(key@, value@) && contents(data) == header_message(
                key@,
                value@,
            ),
            Err(e) => !encodable(key@, value@) && e == EncodeError::TextTooLong,
        },
{
    let record = write_record(key, value)?;
    let words: usize = 1 + record.len() / 8;
    let mut buffer = with_capacity(8 * words);
    match write_single_segment(&mut buffer, record.as_slice()) {
        Ok(()) => Ok(freeze(buffer)),
        Err(_) => unreached(),
    }
}

} // verus!
