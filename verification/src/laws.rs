//! What holds of encoding and decoding together.
//!
//! The laws are stated over `header_message` and `message_header`, the
//! functions in which `HttpHeader::serialize` and `HttpHeader::deserialize`
//! state their results, so each law is a statement about those calls.

use vstd::prelude::*;
use vstd::utf8::*;
use crate::endian::{
    le32_bytes, lemma_le32_bytes_len, lemma_le32_same_bytes, lemma_with_le32, with_le32,
};
use crate::error::DecodeError;
use crate::framing::{
    framed_len, segment_at, segment_count, single_segment_message, table_len, well_framed,
    words_before, WORD_LIMIT,
};
use crate::layout::{
    encodable, field_region, field_text, is_null, list_element_count, lower_half,
    pointer_kind, pointer_section, pointer_target, record_len, record_segment, record_words,
    root_in_bounds, struct_data_words, struct_pointer_count, text_pointer_bytes, text_region,
    text_words, upper_half, word_count, words_for_bytes, HeaderText, KIND_LIST, KIND_STRUCT,
    MAX_TEXT_LEN,
};
use crate::message::{header_message, message_header};
use crate::shape::{
    lemma_patched_half, lemma_patched_key, lemma_patched_message, lemma_patched_value,
    lemma_pointer_halves, lemma_record_message, lemma_record_regions, lemma_record_shape,
    lemma_single_segment, lemma_stored_text, lemma_text_pointer_fields, lemma_text_region,
};

verus! {

/// Whether the message of a header stays within the number of words that
/// deserialization accepts.
pub open spec fn within_word_limit(key: Seq<char>, value: Seq<char>) -> bool {
    record_words(encode_utf8(key).len() as int, encode_utf8(value).len() as int) <= WORD_LIMIT
}

/// The first byte of the key's text in the message of a header.
pub open spec fn key_text_start() -> int {
    32
}

/// The first byte of the value's text in the message of a header with this
/// key.
pub open spec fn value_text_start(key: Seq<char>) -> int {
    32 + 8 * text_words(encode_utf8(key).len() as int)
}

/// Round trip: a header that can be serialized, and whose message stays
/// within the word limit of deserialization, is read back from its message
/// with the same key and the same value.
pub proof fn lemma_round_trip(key: Seq<char>, value: Seq<char>)
    requires
        encodable(key, value),
        within_word_limit(key, value),
    ensures
        message_header(header_message(key, value)) == Ok::<HeaderText, DecodeError>(
            HeaderText { key, value },
        ),
{
    lemma_record_message(encode_utf8(key), encode_utf8(value));
    encode_utf8_valid_utf8(key);
    encode_utf8_valid_utf8(value);
    encode_utf8_decode_utf8(key);
    encode_utf8_decode_utf8(value);
}

/// The message of a header is as long as its framing says, and that is
/// eight bytes of table, three words of pointers and the two stored texts.
pub proof fn lemma_message_len(key: Seq<char>, value: Seq<char>)
    requires
        encodable(key, value),
    ensures
        header_message(key, value).len() == 8 + record_len(
            encode_utf8(key).len() as int,
            encode_utf8(value).len() as int,
        ),
        framed_len(header_message(key, value)) == header_message(key, value).len(),
{
    let k = encode_utf8(key);
    let v = encode_utf8(value);
    lemma_record_shape(k, v);
    lemma_single_segment(record_segment(k, v), record_words(k.len() as int, v.len() as int));
}

/// The word limit: a header that can be serialized, but whose message is
/// longer than the word limit of deserialization, is rejected for its
/// framing when it is read back.
pub proof fn lemma_over_limit_rejected(key: Seq<char>, value: Seq<char>)
    requires
        encodable(key, value),
        !within_word_limit(key, value),
    ensures
        message_header(header_message(key, value)) == Err::<HeaderText, DecodeError>(
            DecodeError::Framing,
        ),
{
    let k = encode_utf8(key);
    let v = encode_utf8(value);
    lemma_record_shape(k, v);
    lemma_single_segment(record_segment(k, v), record_words(k.len() as int, v.len() as int));
}

/// Truncation: a well-framed buffer cut off anywhere before the end of the
/// message that its table declares is rejected for its framing.
pub proof fn lemma_truncation_rejected(bytes: Seq<u8>, len: int)
    requires
        well_framed(bytes),
        0 <= len < framed_len(bytes),
    ensures
        message_header(bytes.subrange(0, len)) == Err::<HeaderText, DecodeError>(
            DecodeError::Framing,
        ),
{
    let cut = bytes.subrange(0, len);
    let count = segment_count(bytes);
    if len >= 8 {
        lemma_le32_same_bytes(bytes, cut, 0);
        if table_len(count) <= len {
            lemma_same_table(bytes, cut, count, count);
        }
    }
}

/// Two buffers that agree on a table of `count` segments declare the same
/// words for the first `upto` of them.
proof fn lemma_same_table(a: Seq<u8>, b: Seq<u8>, count: int, upto: int)
    requires
        0 <= upto <= count,
        table_len(count) <= a.len(),
        table_len(count) <= b.len(),
        forall|i: int| 0 <= i < table_len(count) ==> a[i] == b[i],
    ensures
        words_before(a, upto) == words_before(b, upto),
    decreases upto,
{
    if upto > 0 {
        lemma_same_table(a, b, count, upto - 1);
        lemma_le32_same_bytes(a, b, 4 + 4 * (upto - 1));
    }
}

/// Invalid UTF-8: a well-framed buffer in which the region of the key, or
/// that of the value after a key that was read, lies inside the segment,
/// ends in its terminator and holds bytes that are not valid UTF-8 is
/// rejected for its encoding.
pub proof fn lemma_invalid_utf8_rejected(bytes: Seq<u8>, index: int)
    requires
        well_framed(bytes),
        0 <= index < 2,
        ({
            let segment = segment_at(bytes, 0);
            &&& pointer_section(segment) matches Ok(section)
            &&& index == 1 ==> field_text(segment, section, 0) is Ok
            &&& field_region(segment, section, index) matches Ok(region)
            &&& !valid_utf8(region)
        }),
    ensures
        message_header(bytes) == Err::<HeaderText, DecodeError>(DecodeError::Encoding),
{
}

/// Invalid UTF-8 in a written record: a message whose key or value region
/// holds bytes that are
/// not valid UTF-8 is rejected for its encoding.
pub proof fn lemma_invalid_text_rejected(key: Seq<u8>, value: Seq<u8>)
    requires
        key.len() <= MAX_TEXT_LEN,
        value.len() <= MAX_TEXT_LEN,
        record_words(key.len() as int, value.len() as int) <= WORD_LIMIT,
        !valid_utf8(key) || !valid_utf8(value),
    ensures
        message_header(single_segment_message(record_segment(key, value))) == Err::<
            HeaderText,
            DecodeError,
        >(DecodeError::Encoding),
{
    lemma_record_message(key, value);
}

/// Invalid UTF-8, by patching: where one byte inside the key's text or the
/// value's text of a serialized header is overwritten so that the text is
/// no longer valid UTF-8, the message is rejected for its encoding.
pub proof fn lemma_patched_text_rejected(key: Seq<char>, value: Seq<char>, at: int, byte: u8)
    requires
        encodable(key, value),
        within_word_limit(key, value),
        ({
            let k = encode_utf8(key);
            let v = encode_utf8(value);
            let ks = key_text_start();
            let vs = value_text_start(key);
            ||| ks <= at < ks + k.len() && !valid_utf8(k.update(at - ks, byte))
            ||| vs <= at < vs + v.len() && !valid_utf8(v.update(at - vs, byte))
        }),
    ensures
        message_header(header_message(key, value).update(at, byte)) == Err::<
            HeaderText,
            DecodeError,
        >(DecodeError::Encoding),
{
    let k = encode_utf8(key);
    let v = encode_utf8(value);
    let ks = key_text_start();
    let vs = value_text_start(key);
    lemma_record_shape(k, v);
    lemma_stored_text(k);
    lemma_stored_text(v);
    lemma_patched_message(record_segment(k, v), at - 8, byte);
    if ks <= at < ks + k.len() && !valid_utf8(k.update(at - ks, byte)) {
        lemma_patched_key(k, v, at - ks, byte);
        lemma_invalid_text_rejected(k.update(at - ks, byte), v);
    } else {
        lemma_patched_value(k, v, at - vs, byte);
        lemma_invalid_text_rejected(k, v.update(at - vs, byte));
    }
}

/// Oversized root pointer: a well-framed buffer whose root pointer is a
/// struct pointer to a record that starts before its segment, or ends
/// after it, is rejected for its bounds.
pub proof fn lemma_root_out_of_bounds_rejected(bytes: Seq<u8>)
    requires
        well_framed(bytes),
        ({
            let segment = segment_at(bytes, 0);
            let lower = lower_half(segment, 0);
            let upper = upper_half(segment, 0);
            let target = pointer_target(0, lower);
            &&& !is_null(lower, upper)
            &&& (target < 0 || target + struct_data_words(upper) + struct_pointer_count(upper)
                > word_count(segment))
        }),
    ensures
        message_header(bytes) == Err::<HeaderText, DecodeError>(DecodeError::BoundsViolation),
{
}

/// Oversized text pointer: a well-framed buffer in which the pointer of
/// the key, or that of the value after a key that was read, leads to bytes
/// that start before the segment, or end after it, is rejected for its
/// bounds.
pub proof fn lemma_text_out_of_bounds_rejected(bytes: Seq<u8>, index: int)
    requires
        well_framed(bytes),
        0 <= index < 2,
        ({
            let segment = segment_at(bytes, 0);
            &&& pointer_section(segment) matches Ok(section)
            &&& index < section.1
            &&& index == 1 ==> field_text(segment, section, 0) is Ok
            &&& ({
                let at = section.0 + index;
                let lower = lower_half(segment, at);
                let upper = upper_half(segment, at);
                let target = pointer_target(at, lower);
                &&& !is_null(lower, upper)
                &&& (target < 0 || target + words_for_bytes(list_element_count(upper))
                    > word_count(segment))
            })
        }),
    ensures
        message_header(bytes) == Err::<HeaderText, DecodeError>(DecodeError::BoundsViolation),
{
}

/// Oversized root pointer, by patching: where the lower half of the root
/// pointer of a serialized header is overwritten so that it is still a
/// struct pointer, but to a record that starts before the segment or ends
/// after it, the message is rejected for its bounds.
pub proof fn lemma_patched_root_rejected(key: Seq<char>, value: Seq<char>, lower: int)
    requires
        encodable(key, value),
        within_word_limit(key, value),
        0 <= lower < 0x1_0000_0000,
        pointer_kind(lower) == KIND_STRUCT,
        pointer_target(0, lower) < 0 || pointer_target(0, lower) + 2 > record_words(
            encode_utf8(key).len() as int,
            encode_utf8(value).len() as int,
        ),
    ensures
        message_header(with_le32(header_message(key, value), 8, lower)) == Err::<
            HeaderText,
            DecodeError,
        >(DecodeError::BoundsViolation),
{
    let k = encode_utf8(key);
    let v = encode_utf8(value);
    let segment = record_segment(k, v);
    let patched = with_le32(segment, 0, lower);
    lemma_record_shape(k, v);
    lemma_patched_half(segment, 0, lower);
    lemma_with_le32(segment, 0, lower, 4, 8);
    lemma_single_segment(patched, record_words(k.len() as int, v.len() as int));
    assert(patched.subrange(0, 8) == le32_bytes(lower) + le32_bytes(0x2_0000)) by {
        lemma_le32_bytes_len(lower);
        lemma_le32_bytes_len(0);
        lemma_le32_bytes_len(0x2_0000);
        assert(segment.subrange(4, 8) =~= segment.subrange(0, 8).subrange(4, 8));
        assert(segment.subrange(0, 8).subrange(4, 8) =~= le32_bytes(0x2_0000));
        assert(patched.subrange(0, 8) =~= patched.subrange(0, 4) + patched.subrange(4, 8));
    }
    lemma_pointer_halves(patched, 0, lower, 0x2_0000);
}

/// Oversized text pointer, by patching: where the lower half of the key's
/// pointer or of the value's pointer in a serialized header is overwritten
/// so that it is still a list pointer, but to bytes that start before the
/// segment or end after it, the message is rejected for its bounds.
pub proof fn lemma_patched_text_pointer_rejected(
    key: Seq<char>,
    value: Seq<char>,
    index: int,
    lower: int,
)
    requires
        encodable(key, value),
        within_word_limit(key, value),
        0 <= index < 2,
        0 <= lower < 0x1_0000_0000,
        pointer_kind(lower) == KIND_LIST,
        ({
            let k = encode_utf8(key);
            let v = encode_utf8(value);
            let len = if index == 0 {
                k.len()
            } else {
                v.len()
            };
            let target = pointer_target(1 + index, lower);
            target < 0 || target + text_words(len as int) > record_words(
                k.len() as int,
                v.len() as int,
            )
        }),
    ensures
        message_header(with_le32(header_message(key, value), 16 + 8 * index, lower)) == Err::<
            HeaderText,
            DecodeError,
        >(DecodeError::BoundsViolation),
{
    let k = encode_utf8(key);
    let v = encode_utf8(value);
    let key_words = text_words(k.len() as int);
    let segment = record_segment(k, v);
    let at = 1 + index;
    let len = if index == 0 {
        k.len() as int
    } else {
        v.len() as int
    };
    let upper = 8 * (len + 1) + 2;
    let patched = with_le32(segment, 8 * at, lower);
    lemma_record_shape(k, v);
    lemma_patched_half(segment, 8 * at, lower);

    // the root pointer is as it was
    lemma_with_le32(segment, 8 * at, lower, 0, 8);
    lemma_single_segment(patched, record_words(k.len() as int, v.len() as int));
    assert(pointer_section(patched) == Ok::<(int, int), DecodeError>((1, 2))) by {
        lemma_pointer_halves(patched, 0, 0, 0x2_0000);
        assert(root_in_bounds(patched));
    }

    // the patched pointer leads out of the segment
    lemma_with_le32(segment, 8 * at, lower, 8 * at + 4, 8 * at + 8);
    assert(patched.subrange(8 * at, 8 * at + 8) == le32_bytes(lower) + le32_bytes(upper)) by {
        let offset = if index == 0 {
            1
        } else {
            key_words
        };
        lemma_le32_bytes_len(lower);
        lemma_le32_bytes_len(4 * offset + 1);
        lemma_le32_bytes_len(upper);
        let word = segment.subrange(8 * at, 8 * at + 8);
        assert(word == text_pointer_bytes(offset, len));
        assert(segment.subrange(8 * at + 4, 8 * at + 8) =~= word.subrange(4, 8));
        assert(word.subrange(4, 8) =~= le32_bytes(upper));
        assert(patched.subrange(8 * at, 8 * at + 8) =~= patched.subrange(8 * at, 8 * at + 4)
            + patched.subrange(8 * at + 4, 8 * at + 8));
    }
    lemma_text_pointer_fields(0, len);
    lemma_pointer_halves(patched, at, lower, upper);
    assert(text_region(patched, at) == Err::<Seq<u8>, DecodeError>(
        DecodeError::BoundsViolation,
    ));

    // the key before a patched value is read as it was
    if index == 1 {
        lemma_with_le32(segment, 16, lower, 8, 16);
        lemma_with_le32(segment, 16, lower, 24, 24 + 8 * key_words);
        lemma_text_region(patched, 1, 1, k);
        encode_utf8_valid_utf8(key);
    }
}

} // verus!
