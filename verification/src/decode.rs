//! Reading a header out of the first segment of a message.
//!
//! Every offset and length in a segment is taken as hostile: each is held
//! against the segment's bounds before anything is read through it, and no
//! input makes these functions panic.

use vstd::prelude::*;
use vstd::slice::slice_subrange;
use vstd::string::*;
use vstd::utf8::*;
use crate::endian::read_le32;
use crate::error::DecodeError;
use crate::layout::{
    field_text, pointer_section, pointer_target, segment_header, text_region, word_count,
    HeaderText, KIND_LIST, KIND_STRUCT, SIZE_BYTE,
};

verus! {

/// `core::str::from_utf8`, with its error dropped: the bytes are accepted
/// exactly when they are valid UTF-8, and the string returned is those same
/// bytes, borrowed and not copied.
#[verifier::external_body]
fn utf8_str(bytes: &[u8]) -> (text: Option<&str>)
    ensures
        text is Some <==> valid_utf8(bytes@),
        text matches Some(s) ==> s.spec_bytes() == bytes@,
{
    core::str::from_utf8(bytes).ok()
}

/// The word at which the target of the pointer in word `at` starts, or
/// `None` where that lies before the segment.
fn target_word(at: usize, lower: u32) -> (target: Option<u64>)
    requires
        at < 0x2000_0000_0000_0000,
    ensures
        match target {
            Some(t) => t == pointer_target(at as int, lower as int),
            None => pointer_target(at as int, lower as int) < 0,
        },
{
    let raw: u64 = (lower / 4) as u64;
    let base: u64 = at as u64 + 1 + raw;
    if raw >= 0x2000_0000 {
        if base < 0x4000_0000 {
            None
        } else {
            Some(base - 0x4000_0000)
        }
    } else {
        Some(base)
    }
}

/// Locates the record's pointer section: the word at which it starts and
/// the number of its slots.
pub fn read_pointer_section(segment: &[u8]) -> (section: Result<(usize, usize), DecodeError>)
    ensures
        match section {
            Ok(s) => pointer_section(segment@) == Ok::<(int, int), DecodeError>(
                (s.0 as int, s.1 as int),
            ) && s.0 + s.1 <= word_count(segment@),
            Err(e) => pointer_section(segment@) == Err::<(int, int), DecodeError>(e),
        },
{
    let words: usize = segment.len() / 8;
    if words < 1 {
        return Err(DecodeError::BoundsViolation);
    }
    let lower: u32 = read_le32(segment, 0);
    let upper: u32 = read_le32(segment, 4);
    if lower == 0 && upper == 0 {
        return Ok((0, 0));
    }
    if lower % 4 != KIND_STRUCT {
        return Err(DecodeError::BoundsViolation);
    }
    let data: u64 = (upper % 0x1_0000) as u64;
    let count: u64 = (upper / 0x1_0000) as u64;
    match target_word(0, lower) {
        None => Err(DecodeError::BoundsViolation),
        Some(target) => {
            if target + data + count > words as u64 {
                Err(DecodeError::BoundsViolation)
            } else {
                Ok(((target + data) as usize, count as usize))
            }
        },
    }
}

/// Follows the text pointer in word `at` and returns the bytes of its
/// text, without the terminator.
pub fn read_text_region(segment: &[u8], at: usize) -> (region: Result<&[u8], DecodeError>)
    requires
        at < word_count(segment@),
    ensures
        match region {
            Ok(bytes) => text_region(segment@, at as int) == Ok::<Seq<u8>, DecodeError>(bytes@),
            Err(e) => text_region(segment@, at as int) == Err::<Seq<u8>, DecodeError>(e),
        },
{
    let words: usize = segment.len() / 8;
    let lower: u32 = read_le32(segment, 8 * at);
    let upper: u32 = read_le32(segment, 8 * at + 4);
    if lower == 0 && upper == 0 {
        let empty = slice_subrange(segment, 0, 0);
        assert(empty@ =~= Seq::<u8>::empty());
        return Ok(empty);
    }
    if lower % 4 != KIND_LIST || upper % 8 != SIZE_BYTE {
        return Err(DecodeError::BoundsViolation);
    }
    let count: u64 = (upper / 8) as u64;
    if count < 1 {
        return Err(DecodeError::BoundsViolation);
    }
    match target_word(at, lower) {
        None => Err(DecodeError::BoundsViolation),
        Some(target) => {
            if target + (count + 7) / 8 > words as u64 {
                return Err(DecodeError::BoundsViolation);
            }
            let start: usize = (8 * target) as usize;
            let len: usize = (count - 1) as usize;
            if segment[start + len] != 0 {
                return Err(DecodeError::Encoding);
            }
            Ok(slice_subrange(segment, start, start + len))
        },
    }
}

/// Reads the record's text field number `index` as a string that borrows
/// from the segment.
pub fn read_field(
    segment: &[u8],
    section: (usize, usize),
    index: usize,
) -> (text: Result<&str, DecodeError>)
    requires
        section.0 + section.1 <= word_count(segment@),
    ensures
        match text {
            Ok(s) => field_text(segment@, (section.0 as int, section.1 as int), index as int)
                == Ok::<Seq<char>, DecodeError>(s@),
            Err(e) => field_text(segment@, (section.0 as int, section.1 as int), index as int)
                == Err::<Seq<char>, DecodeError>(e),
        },
{
    let region = if index < section.1 {
        assert(section.0 + index < segment.len() / 8);
        read_text_region(segment, section.0 + index)
    } else {
        let empty = slice_subrange(segment, 0, 0);
        assert(empty@ =~= Seq::<u8>::empty());
        Ok(empty)
    };
    match region {
        Err(e) => Err(e),
        Ok(bytes) => match utf8_str(bytes) {
            None => Err(DecodeError::Encoding),
            Some(s) => {
                proof {
                    encode_utf8_decode_utf8(s@);
                }
                Ok(s)
            },
        },
    }
}

/// Reads the header that a first segment holds. The two strings borrow
/// from the segment.
pub fn read_header(segment: &[u8]) -> (header: Result<(&str, &str), DecodeError>)
    ensures
        match header {
            Ok(h) => segment_header(segment@) == Ok::<HeaderText, DecodeError>(
                HeaderText { key: h.0@, value: h.1@ },
            ),
            Err(e) => segment_header(segment@) == Err::<HeaderText, DecodeError>(e),
        },
{
    let section = read_pointer_section(segment)?;
    let key = read_field(segment, section, 0)?;
    let value = read_field(segment, section, 1)?;
    Ok((key, value))
}

} // verus!
