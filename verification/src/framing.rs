//! The framing of a message: a segment table, then the segments.
//!
//! The table is a 32-bit count of segments minus one, then one 32-bit
//! length in words for each segment, all little-endian, padded with four
//! bytes where needed so that the segments start on an 8-byte boundary. The
//! segments follow one after another.
//!
//! The table is read and written by `capnp::serialize`. The contracts given
//! to those calls here are taken on trust; everything built on them is
//! proved.

use vstd::prelude::*;
use bytes::{BufMut, Bytes, BytesMut};
use capnp::message::{ReaderOptions, ReaderSegments, SegmentArray};
use capnp::serialize::BufferSegments;
use crate::buffer::{contents, written};
use crate::endian::{le32, le32_bytes};

verus! {

/// A message has fewer segments than this.
pub const SEGMENT_LIMIT: usize = 512;

/// A message declares at most this many words in all.
pub const WORD_LIMIT: usize = 0x80_0000;

/// The number of segments that the table declares.
pub open spec fn segment_count(bytes: Seq<u8>) -> int {
    (le32(bytes, 0) + 1) % 0x1_0000_0000
}

/// The length in bytes of a table of `count` segments, padding included.
pub open spec fn table_len(count: int) -> int {
    8 * (count / 2 + 1)
}

/// The length in words that the table declares for segment `index`.
pub open spec fn segment_words(bytes: Seq<u8>, index: int) -> int {
    le32(bytes, 4 + 4 * index)
}

/// The words that the table declares for the segments before `index`.
pub open spec fn words_before(bytes: Seq<u8>, index: int) -> int
    decreases index,
{
    if index <= 0 {
        0
    } else {
        words_before(bytes, index - 1) + segment_words(bytes, index - 1)
    }
}

/// The length in bytes of the message that the table describes: the table
/// and every segment it declares.
pub open spec fn framed_len(bytes: Seq<u8>) -> int {
    table_len(segment_count(bytes)) + 8 * words_before(bytes, segment_count(bytes))
}

/// Whether `bytes` starts with a message: the table is there in full, it
/// declares at least one segment and fewer than `SEGMENT_LIMIT`, no more
/// than `WORD_LIMIT` words in all, and the buffer holds all of them. Bytes
/// after the message are allowed.
pub open spec fn well_framed(bytes: Seq<u8>) -> bool {
    &&& 8 <= bytes.len()
    &&& 1 <= segment_count(bytes) < SEGMENT_LIMIT
    &&& table_len(segment_count(bytes)) <= bytes.len()
    &&& words_before(bytes, segment_count(bytes)) <= WORD_LIMIT
    &&& framed_len(bytes) <= bytes.len()
}

/// The bytes of segment `index` of a well-framed message.
pub open spec fn segment_at(bytes: Seq<u8>, index: int) -> Seq<u8> {
    let start = table_len(segment_count(bytes)) + 8 * words_before(bytes, index);
    bytes.subrange(start, start + 8 * segment_words(bytes, index))
}

/// The message that consists of the one segment given: a table of one
/// entry, then the segment.
pub open spec fn single_segment_message(segment: Seq<u8>) -> Seq<u8> {
    le32_bytes(0) + le32_bytes(segment.len() as int / 8) + segment
}

/// `capnp::serialize::BufferSegments`: a buffer together with the places of
/// the segments that its table declares.
#[verifier::external_type_specification]
#[verifier::external_body]
#[verifier::reject_recursive_types(T)]
pub struct ExBufferSegments<T>(BufferSegments<T>);

/// `capnp::Error`.
#[verifier::external_type_specification]
#[verifier::external_body]
pub struct ExCapnpError(capnp::Error);

/// The bytes of the buffer that a `BufferSegments` was made from.
pub uninterp spec fn framed_bytes(segments: BufferSegments<Bytes>) -> Seq<u8>;

/// `BufferSegments::new` with the default reader options. It reads the
/// segment table and succeeds exactly on a well-framed buffer, which it
/// then holds unchanged. The default options set the limit on the words
/// declared; the limit on the number of segments is the crate's own.
#[verifier::external_body]
pub(crate) fn frame(data: Bytes) -> (framed: Result<BufferSegments<Bytes>, capnp::Error>)
    ensures
        framed is Ok <==> well_framed(contents(data)),
        framed matches Ok(segments) ==> framed_bytes(segments) == contents(data),
{
    BufferSegments::new(data, ReaderOptions::default())
}

/// `ReaderSegments::get_segment` on a `BufferSegments`: the part of the
/// buffer that the table assigns to segment `index`, borrowed and not
/// copied, or `None` where the table declares no such segment.
#[verifier::external_body]
pub(crate) fn segment(segments: &BufferSegments<Bytes>, index: u32) -> (found: Option<&[u8]>)
    requires
        well_framed(framed_bytes(*segments)),
    ensures
        found is Some <==> index < segment_count(framed_bytes(*segments)),
        found matches Some(bytes) ==> bytes@ == segment_at(framed_bytes(*segments), index as int),
{
    segments.get_segment(index)
}

/// `capnp::serialize::write_message_segments` for a message of one segment,
/// written to the end of `buffer`: the table of one entry, then the
/// segment. The call fails only where the writer does, and a `BytesMut`
/// takes whatever is written to it as long as it stays below `isize::MAX`
/// bytes. It panics where the segment's length in words does not fit 32
/// bits.
#[verifier::external_body]
pub(crate) fn write_single_segment(buffer: &mut BytesMut, segment: &[u8]) -> (done: Result<(), capnp::Error>)
    requires
        segment@.len() / 8 <= u32::MAX,
        written(*old(buffer)).len() + 8 + segment@.len() <= isize::MAX,
    ensures
        done is Ok,
        written(*final(buffer)) == written(*old(buffer)) + single_segment_message(segment@),
{
    let table = [segment];
    capnp::serialize::write_message_segments(buffer.writer(), &SegmentArray::new(&table))
}

} // verus!
