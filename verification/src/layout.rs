//! The layout of a header record inside the first segment of a message.
//!
//! A segment is a sequence of 8-byte words. Word 0 holds the root pointer,
//! a struct pointer to a record whose pointer section has two slots, `key`
//! then `value`. Each slot is a list pointer to a run of bytes: the UTF-8
//! text, one NUL byte, and zero padding up to the next word.
//!
//! A pointer is two little-endian 32-bit halves. The low two bits of the
//! lower half give its kind, the other thirty a signed offset in words,
//! counted from the word after the pointer. The upper half of a struct
//! pointer gives the sizes of the data and pointer sections; that of a list
//! pointer gives the element size in its low three bits and the element
//! count above them.
//!
//! A record is read inside its own segment only. A pointer of another
//! kind, such as one that leads into another segment, is refused like one
//! that leads out of bounds.
//!
//! Everything here is ghost code: what a segment means, and which segment
//! a header is written as.

use vstd::prelude::*;
use vstd::utf8::*;
use crate::endian::{le32, le32_bytes, zeros};
use crate::error::DecodeError;

verus! {

/// Pointer kind of a struct pointer.
pub const KIND_STRUCT: u32 = 0;

/// Pointer kind of a list pointer.
pub const KIND_LIST: u32 = 1;

/// Element size tag of a list of bytes.
pub const SIZE_BYTE: u32 = 2;

/// The longest text, in bytes, that a text pointer can describe: the
/// element count has 29 bits and counts the terminator too.
pub const MAX_TEXT_LEN: usize = 0x1FFF_FFFE;

/// The texts of a header.
pub struct HeaderText {
    pub key: Seq<char>,
    pub value: Seq<char>,
}

/// The number of whole words in `segment`.
pub open spec fn word_count(segment: Seq<u8>) -> int {
    segment.len() as int / 8
}

/// The lower half of the pointer in word `at`.
pub open spec fn lower_half(segment: Seq<u8>, at: int) -> int {
    le32(segment, 8 * at)
}

/// The upper half of the pointer in word `at`.
pub open spec fn upper_half(segment: Seq<u8>, at: int) -> int {
    le32(segment, 8 * at + 4)
}

/// A pointer whose two halves are zero points nowhere: the field it stands
/// for has its default value.
pub open spec fn is_null(lower: int, upper: int) -> bool {
    lower == 0 && upper == 0
}

pub open spec fn pointer_kind(lower: int) -> int {
    lower % 4
}

/// The signed 30-bit offset of a struct or list pointer.
pub open spec fn pointer_offset(lower: int) -> int {
    let raw = lower / 4;
    if raw >= 0x2000_0000 {
        raw - 0x4000_0000
    } else {
        raw
    }
}

/// The word at which the target of the pointer in word `at` starts.
pub open spec fn pointer_target(at: int, lower: int) -> int {
    at + 1 + pointer_offset(lower)
}

pub open spec fn struct_data_words(upper: int) -> int {
    upper % 0x1_0000
}

pub open spec fn struct_pointer_count(upper: int) -> int {
    upper / 0x1_0000
}

pub open spec fn list_element_size(upper: int) -> int {
    upper % 8
}

pub open spec fn list_element_count(upper: int) -> int {
    upper / 8
}

/// The number of words that `count` bytes occupy.
pub open spec fn words_for_bytes(count: int) -> int {
    (count + 7) / 8
}

/// The number of words that a text of `len` bytes occupies with its
/// terminator.
pub open spec fn text_words(len: int) -> int {
    words_for_bytes(len + 1)
}

/// Whether the root pointer leads to a record inside the segment: it is a
/// struct pointer, and the data and pointer sections it declares lie within
/// the segment's words.
pub open spec fn root_in_bounds(segment: Seq<u8>) -> bool {
    let lower = lower_half(segment, 0);
    let upper = upper_half(segment, 0);
    let target = pointer_target(0, lower);
    &&& pointer_kind(lower) == KIND_STRUCT
    &&& 0 <= target
    &&& target + struct_data_words(upper) + struct_pointer_count(upper) <= word_count(segment)
}

/// Where the record's pointer section starts and how many slots it has.
/// A null root pointer stands for a record with no slots.
pub open spec fn pointer_section(segment: Seq<u8>) -> Result<(int, int), DecodeError> {
    let lower = lower_half(segment, 0);
    let upper = upper_half(segment, 0);
    if word_count(segment) < 1 {
        Err(DecodeError::BoundsViolation)
    } else if is_null(lower, upper) {
        Ok((0, 0))
    } else if !root_in_bounds(segment) {
        Err(DecodeError::BoundsViolation)
    } else {
        Ok((pointer_target(0, lower) + struct_data_words(upper), struct_pointer_count(upper)))
    }
}

/// Whether the pointer in word `at` leads to a run of bytes inside the
/// segment, with room for the terminator: it is a list pointer with
/// byte-sized elements, at least one of them, and the words that hold them
/// lie within the segment.
pub open spec fn text_in_bounds(segment: Seq<u8>, at: int) -> bool {
    let lower = lower_half(segment, at);
    let upper = upper_half(segment, at);
    let target = pointer_target(at, lower);
    let count = list_element_count(upper);
    &&& pointer_kind(lower) == KIND_LIST
    &&& list_element_size(upper) == SIZE_BYTE
    &&& count >= 1
    &&& 0 <= target
    &&& target + words_for_bytes(count) <= word_count(segment)
}

/// The byte at which the text behind the pointer in word `at` starts.
pub open spec fn text_start(segment: Seq<u8>, at: int) -> int {
    8 * pointer_target(at, lower_half(segment, at))
}

/// The length of the text behind the pointer in word `at`, without its
/// terminator.
pub open spec fn text_len(segment: Seq<u8>, at: int) -> int {
    list_element_count(upper_half(segment, at)) - 1
}

/// The bytes of the text behind the pointer in word `at`, which lies inside
/// the segment. A null pointer stands for the empty text.
pub open spec fn text_region(segment: Seq<u8>, at: int) -> Result<Seq<u8>, DecodeError> {
    let start = text_start(segment, at);
    let len = text_len(segment, at);
    if is_null(lower_half(segment, at), upper_half(segment, at)) {
        Ok(Seq::empty())
    } else if !text_in_bounds(segment, at) {
        Err(DecodeError::BoundsViolation)
    } else if segment[start + len] != 0 {
        Err(DecodeError::Encoding)
    } else {
        Ok(segment.subrange(start, start + len))
    }
}

/// The bytes of the record's text field number `index`. A slot that the
/// pointer section does not have stands for the empty text.
pub open spec fn field_region(segment: Seq<u8>, section: (int, int), index: int) -> Result<
    Seq<u8>,
    DecodeError,
> {
    if index < section.1 {
        text_region(segment, section.0 + index)
    } else {
        Ok(Seq::empty())
    }
}

/// The characters that a text region holds.
pub open spec fn region_text(region: Result<Seq<u8>, DecodeError>) -> Result<
    Seq<char>,
    DecodeError,
> {
    match region {
        Err(e) => Err(e),
        Ok(bytes) => if valid_utf8(bytes) {
            Ok(decode_utf8(bytes))
        } else {
            Err(DecodeError::Encoding)
        },
    }
}

/// The text of the record's field number `index`.
pub open spec fn field_text(segment: Seq<u8>, section: (int, int), index: int) -> Result<
    Seq<char>,
    DecodeError,
> {
    region_text(field_region(segment, section, index))
}

/// The header that a first segment holds: the root record is located, then
/// `key` is followed and validated, then `value`.
pub open spec fn segment_header(segment: Seq<u8>) -> Result<HeaderText, DecodeError> {
    match pointer_section(segment) {
        Err(e) => Err(e),
        Ok(section) => match field_text(segment, section, 0) {
            Err(e) => Err(e),
            Ok(key) => match field_text(segment, section, 1) {
                Err(e) => Err(e),
                Ok(value) => Ok(HeaderText { key, value }),
            },
        },
    }
}

/// The root pointer of a written record: the record follows at once, with
/// no data words and two pointer slots.
pub open spec fn root_pointer_bytes() -> Seq<u8> {
    le32_bytes(0) + le32_bytes(0x2_0000)
}

/// A pointer to a text of `len` bytes that starts `offset` words after the
/// pointer's own word.
pub open spec fn text_pointer_bytes(offset: int, len: int) -> Seq<u8> {
    le32_bytes(4 * offset + KIND_LIST) + le32_bytes(8 * (len + 1) + SIZE_BYTE)
}

/// A text as it is stored: its bytes, the terminator, and zero padding up
/// to the next word.
pub open spec fn stored_text(text: Seq<u8>) -> Seq<u8> {
    text + zeros(8 * text_words(text.len() as int) - text.len())
}

/// The segment that a record with these two texts is written as: root
/// pointer, the two slots, then the texts in order.
#[verifier::opaque]
pub open spec fn record_segment(key: Seq<u8>, value: Seq<u8>) -> Seq<u8> {
    root_pointer_bytes() + text_pointer_bytes(1, key.len() as int) + text_pointer_bytes(
        text_words(key.len() as int),
        value.len() as int,
    ) + stored_text(key) + stored_text(value)
}

/// The length of `record_segment(key, value)` in words: the root
/// pointer, the two slots, and the two stored texts.
pub open spec fn record_words(key_len: int, value_len: int) -> int {
    3 + text_words(key_len) + text_words(value_len)
}

/// The length of `record_segment(key, value)` in bytes.
pub open spec fn record_len(key_len: int, value_len: int) -> int {
    8 * record_words(key_len, value_len)
}

/// Whether both texts are short enough to be written.
pub open spec fn encodable(key: Seq<char>, value: Seq<char>) -> bool {
    encode_utf8(key).len() <= MAX_TEXT_LEN && encode_utf8(value).len() <= MAX_TEXT_LEN
}

} // verus!
