//! Writing a header as the first segment of a message.

use vstd::prelude::*;
use vstd::string::*;
use vstd::utf8::*;
use crate::endian::{push_le32, push_zeros};
use crate::error::EncodeError;
use crate::layout::{
    encodable, record_len, record_segment, root_pointer_bytes, stored_text, text_pointer_bytes,
    KIND_LIST, MAX_TEXT_LEN, SIZE_BYTE,
};

verus! {

/// Appends a pointer to a text of `len` bytes that starts `offset` words
/// after the pointer's own word.
fn push_text_pointer(out: &mut Vec<u8>, offset: usize, len: usize)
    requires
        offset < 0x2000_0000,
        len <= MAX_TEXT_LEN,
    ensures
        final(out)@ == old(out)@ + text_pointer_bytes(offset as int, len as int),
        final(out)@.len() == old(out)@.len() + 8,
{
    let ghost before = out@;
    let lower: u32 = 4 * (offset as u32) + KIND_LIST;
    let upper: u32 = 8 * (len as u32 + 1) + SIZE_BYTE;
    push_le32(out, lower);
    push_le32(out, upper);
    assert(out@ =~= before + text_pointer_bytes(offset as int, len as int));
}

/// Appends a text as it is stored: its bytes, the terminator, and zero
/// padding up to the next word.
fn push_stored_text(out: &mut Vec<u8>, text: &[u8])
    requires
        text@.len() <= MAX_TEXT_LEN,
    ensures
        final(out)@ == old(out)@ + stored_text(text@),
{
    let ghost before = out@;
    out.extend_from_slice(text);
    assert(out@ =~= before + text@);
    push_zeros(out, 8 * (text.len() / 8 + 1) - text.len());
    assert(out@ =~= before + stored_text(text@));
}

/// Writes the segment of a record with the texts `key` and `value`: the
/// root pointer, the two text pointers, then the texts in that order, each
/// with its terminator and padded to whole words.
pub fn write_record(key: &str, value: &str) -> (segment: Result<Vec<u8>, EncodeError>)
    ensures
        match segment {
            Ok(bytes) => encodable(key@, value@) && bytes@ == record_segment(
                encode_utf8(key@),
                encode_utf8(value@),
            ) && bytes@.len() == record_len(
                encode_utf8(key@).len() as int,
                encode_utf8(value@).len() as int,
            ),
            Err(e) => !encodable(key@, value@) && e == EncodeError::TextTooLong,
        },
{
    let key_bytes = key.as_bytes();
    let value_bytes = value.as_bytes();
    if key_bytes.len() > MAX_TEXT_LEN || value_bytes.len() > MAX_TEXT_LEN {
        return Err(EncodeError::TextTooLong);
    }
    let key_words: usize = key_bytes.len() / 8 + 1;
    let value_words: usize = value_bytes.len() / 8 + 1;
    let mut out: Vec<u8> = Vec::with_capacity(24 + 8 * key_words + 8 * value_words);
    push_le32(&mut out, 0);
    push_le32(&mut out, 0x2_0000);
    assert(out@ =~= root_pointer_bytes());
    push_text_pointer(&mut out, 1, key_bytes.len());
    push_text_pointer(&mut out, key_words, value_bytes.len());
    push_stored_text(&mut out, key_bytes);
    push_stored_text(&mut out, value_bytes);
    proof {
        reveal(record_segment);
    }
    Ok(out)
}

} // verus!
