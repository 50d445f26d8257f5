//! What a written message looks like, byte by byte.
//!
//! These lemmas take the encoder's output apart: where each pointer and
//! each text stands in it, what the decoder's functions make of them, and
//! what overwriting a part of it amounts to. The laws are proved from them.

use vstd::prelude::*;
use vstd::utf8::*;
use crate::endian::{le32_bytes, lemma_le32_bytes_len, lemma_le32_of_bytes, with_le32};
use crate::error::DecodeError;
use crate::framing::{
    framed_len, segment_at, segment_count, segment_words, single_segment_message, well_framed,
    words_before, WORD_LIMIT,
};
use crate::layout::{
    field_region, is_null, list_element_count, list_element_size, lower_half, pointer_kind,
    pointer_offset, pointer_section, record_len, record_segment, record_words,
    region_text, root_in_bounds, root_pointer_bytes, stored_text, text_in_bounds, text_len,
    text_pointer_bytes, text_region, text_start, text_words, upper_half, HeaderText, KIND_LIST,
    MAX_TEXT_LEN, SIZE_BYTE,
};
use crate::message::message_header;

verus! {

/// A message of one segment is well framed exactly when the segment stays
/// within the word limit, and its first segment is the segment it was made
/// from.
pub proof fn lemma_single_segment(segment: Seq<u8>, words: int)
    requires
        segment.len() == 8 * words,
        words < 0x1_0000_0000,
    ensures
        well_framed(single_segment_message(segment)) <==> words <= WORD_LIMIT,
        segment_at(single_segment_message(segment), 0) == segment,
        single_segment_message(segment).len() == 8 + segment.len(),
        framed_len(single_segment_message(segment)) == 8 + segment.len(),
{
    assert(segment.len() as int / 8 == words);
    let message = single_segment_message(segment);
    lemma_le32_bytes_len(0);
    lemma_le32_bytes_len(words);
    assert(message.len() == 8 + segment.len());
    assert(message.subrange(0, 4) =~= le32_bytes(0));
    assert(message.subrange(4, 8) =~= le32_bytes(words));
    lemma_le32_of_bytes(message, 0, 0);
    lemma_le32_of_bytes(message, 4, words);
    assert(segment_count(message) == 1);
    assert(segment_words(message, 0) == words);
    assert(words_before(message, 1) == words) by {
        reveal_with_fuel(words_before, 2);
    }
    assert(words_before(message, 0) == 0);
    assert(segment_at(message, 0) =~= segment);
}

/// The fields of a written text pointer read back as they were written.
pub proof fn lemma_text_pointer_fields(offset: int, len: int)
    requires
        0 <= offset < 0x2000_0000,
        0 <= len <= MAX_TEXT_LEN,
    ensures
        0 <= 4 * offset + 1 < 0x1_0000_0000,
        0 <= 8 * (len + 1) + 2 < 0x1_0000_0000,
        pointer_kind(4 * offset + 1) == KIND_LIST,
        pointer_offset(4 * offset + 1) == offset,
        list_element_size(8 * (len + 1) + 2) == SIZE_BYTE,
        list_element_count(8 * (len + 1) + 2) == len + 1,
        !is_null(4 * offset + 1, 8 * (len + 1) + 2),
{
}

/// A stored text is whole words long, starts with the text, and has a zero
/// byte right after it.
pub proof fn lemma_stored_text(text: Seq<u8>)
    ensures
        stored_text(text).len() == 8 * text_words(text.len() as int),
        stored_text(text).len() > text.len(),
        stored_text(text).subrange(0, text.len() as int) == text,
        stored_text(text)[text.len() as int] == 0,
{
    assert(stored_text(text).subrange(0, text.len() as int) =~= text);
}

/// The parts of a record's segment, each at its place.
pub proof fn lemma_record_shape(key: Seq<u8>, value: Seq<u8>)
    ensures
        record_segment(key, value).len() == record_len(key.len() as int, value.len() as int),
        record_segment(key, value).subrange(0, 8) == root_pointer_bytes(),
        record_segment(key, value).subrange(8, 16) == text_pointer_bytes(1, key.len() as int),
        record_segment(key, value).subrange(16, 24) == text_pointer_bytes(
            text_words(key.len() as int),
            value.len() as int,
        ),
        record_segment(key, value).subrange(24, 24 + 8 * text_words(key.len() as int))
            == stored_text(key),
        record_segment(key, value).subrange(
            24 + 8 * text_words(key.len() as int),
            record_len(key.len() as int, value.len() as int),
        ) == stored_text(value),
{
    reveal(record_segment);
    let segment = record_segment(key, value);
    let key_end = 24 + 8 * text_words(key.len() as int);
    lemma_stored_text(key);
    lemma_stored_text(value);
    lemma_le32_bytes_len(0);
    lemma_le32_bytes_len(0x2_0000);
    lemma_le32_bytes_len(5);
    lemma_le32_bytes_len(8 * (key.len() as int + 1) + 2);
    lemma_le32_bytes_len(4 * text_words(key.len() as int) + 1);
    lemma_le32_bytes_len(8 * (value.len() as int + 1) + 2);
    assert(root_pointer_bytes().len() == 8);
    assert(text_pointer_bytes(1, key.len() as int).len() == 8);
    assert(text_pointer_bytes(text_words(key.len() as int), value.len() as int).len() == 8);
    assert(segment.subrange(0, 8) =~= root_pointer_bytes());
    assert(segment.subrange(8, 16) =~= text_pointer_bytes(1, key.len() as int));
    assert(segment.subrange(16, 24) =~= text_pointer_bytes(
        text_words(key.len() as int),
        value.len() as int,
    ));
    assert(segment.subrange(24, key_end) =~= stored_text(key));
    assert(segment.subrange(key_end, segment.len() as int) =~= stored_text(value));
}

/// The two halves of a pointer that was written as `le32_bytes(lower)`
/// followed by `le32_bytes(upper)` into word `at` of a segment.
pub proof fn lemma_pointer_halves(segment: Seq<u8>, at: int, lower: int, upper: int)
    requires
        0 <= at,
        8 * at + 8 <= segment.len(),
        0 <= lower < 0x1_0000_0000,
        0 <= upper < 0x1_0000_0000,
        segment.subrange(8 * at, 8 * at + 8) == le32_bytes(lower) + le32_bytes(upper),
    ensures
        lower_half(segment, at) == lower,
        upper_half(segment, at) == upper,
{
    let word = segment.subrange(8 * at, 8 * at + 8);
    lemma_le32_bytes_len(lower);
    lemma_le32_bytes_len(upper);
    assert(segment.subrange(8 * at, 8 * at + 4) =~= word.subrange(0, 4));
    assert(segment.subrange(8 * at + 4, 8 * at + 8) =~= word.subrange(4, 8));
    assert(word.subrange(0, 4) =~= le32_bytes(lower));
    assert(word.subrange(4, 8) =~= le32_bytes(upper));
    lemma_le32_of_bytes(segment, 8 * at, lower);
    lemma_le32_of_bytes(segment, 8 * at + 4, upper);
}

/// A text pointer in word `at` of a segment, written for a text that is
/// stored `offset` words after it, leads to that text.
pub proof fn lemma_text_region(segment: Seq<u8>, at: int, offset: int, text: Seq<u8>)
    requires
        0 <= at,
        0 <= offset < 0x2000_0000,
        text.len() <= MAX_TEXT_LEN,
        segment.len() % 8 == 0,
        8 * (at + 1 + offset) + 8 * text_words(text.len() as int) <= segment.len(),
        segment.subrange(8 * at, 8 * at + 8) == text_pointer_bytes(offset, text.len() as int),
        segment.subrange(
            8 * (at + 1 + offset),
            8 * (at + 1 + offset) + 8 * text_words(text.len() as int),
        ) == stored_text(text),
    ensures
        text_region(segment, at) == Ok::<Seq<u8>, DecodeError>(text),
{
    let len = text.len() as int;
    let start = 8 * (at + 1 + offset);
    let stored = segment.subrange(start, start + 8 * text_words(len));
    lemma_text_pointer_fields(offset, len);
    lemma_pointer_halves(segment, at, 4 * offset + 1, 8 * (len + 1) + 2);
    lemma_stored_text(text);
    assert(text_start(segment, at) == start);
    assert(text_len(segment, at) == len);
    assert(text_in_bounds(segment, at));
    assert(segment[start + len] == stored[len]);
    assert(segment.subrange(start, start + len) =~= stored.subrange(0, len));
}

/// The segment of a record holds what the decoder looks for: a root
/// pointer to a pointer section of two slots at word 1, and behind the two
/// slots the two texts, whatever their bytes are.
pub proof fn lemma_record_regions(key: Seq<u8>, value: Seq<u8>)
    requires
        key.len() <= MAX_TEXT_LEN,
        value.len() <= MAX_TEXT_LEN,
    ensures
        record_segment(key, value).len() == record_len(key.len() as int, value.len() as int),
        pointer_section(record_segment(key, value)) == Ok::<(int, int), DecodeError>((1, 2)),
        field_region(record_segment(key, value), (1, 2), 0) == Ok::<Seq<u8>, DecodeError>(key),
        field_region(record_segment(key, value), (1, 2), 1) == Ok::<Seq<u8>, DecodeError>(value),
{
    let segment = record_segment(key, value);
    let key_words = text_words(key.len() as int);
    lemma_record_shape(key, value);
    assert(pointer_section(segment) == Ok::<(int, int), DecodeError>((1, 2))) by {
        lemma_pointer_halves(segment, 0, 0, 0x2_0000);
        assert(root_in_bounds(segment));
    }
    assert(text_region(segment, 1) == Ok::<Seq<u8>, DecodeError>(key)) by {
        lemma_text_region(segment, 1, 1, key);
    }
    assert(text_region(segment, 2) == Ok::<Seq<u8>, DecodeError>(value)) by {
        lemma_text_region(segment, 2, key_words, value);
    }
}

/// The header read from a message of one record segment with the texts
/// `key` and `value`, whatever their bytes are, is the one that the two
/// texts decode to, and the key is looked at first.
pub proof fn lemma_record_message(key: Seq<u8>, value: Seq<u8>)
    requires
        key.len() <= MAX_TEXT_LEN,
        value.len() <= MAX_TEXT_LEN,
        record_words(key.len() as int, value.len() as int) <= WORD_LIMIT,
    ensures
        message_header(single_segment_message(record_segment(key, value))) == (match region_text(
            Ok(key),
        ) {
            Err(e) => Err::<HeaderText, DecodeError>(e),
            Ok(k) => match region_text(Ok(value)) {
                Err(e) => Err::<HeaderText, DecodeError>(e),
                Ok(v) => Ok::<HeaderText, DecodeError>(HeaderText { key: k, value: v }),
            },
        }),
{
    lemma_record_regions(key, value);
    lemma_single_segment(
        record_segment(key, value),
        record_words(key.len() as int, value.len() as int),
    );
}

/// Overwriting a byte of a segment overwrites that byte of its message.
pub proof fn lemma_patched_message(segment: Seq<u8>, at: int, byte: u8)
    requires
        0 <= at < segment.len(),
    ensures
        single_segment_message(segment).update(8 + at, byte) == single_segment_message(
            segment.update(at, byte),
        ),
{
    lemma_le32_bytes_len(0);
    lemma_le32_bytes_len(segment.len() as int / 8);
    assert(single_segment_message(segment).update(8 + at, byte) =~= single_segment_message(
        segment.update(at, byte),
    ));
}

/// Overwriting a byte of a stored text overwrites that byte of the text.
pub proof fn lemma_patched_stored_text(text: Seq<u8>, at: int, byte: u8)
    requires
        0 <= at < text.len(),
    ensures
        stored_text(text).update(at, byte) == stored_text(text.update(at, byte)),
{
    assert(stored_text(text).update(at, byte) =~= stored_text(text.update(at, byte)));
}

/// Overwriting a byte of the key's text in a record's segment gives the
/// segment of the record with that key.
pub proof fn lemma_patched_key(key: Seq<u8>, value: Seq<u8>, at: int, byte: u8)
    requires
        0 <= at < key.len(),
    ensures
        record_segment(key, value).update(24 + at, byte) == record_segment(
            key.update(at, byte),
            value,
        ),
{
    reveal(record_segment);
    let head = root_pointer_bytes() + text_pointer_bytes(1, key.len() as int)
        + text_pointer_bytes(text_words(key.len() as int), value.len() as int);
    lemma_record_shape(key, value);
    lemma_record_shape(key.update(at, byte), value);
    lemma_stored_text(key);
    lemma_patched_stored_text(key, at, byte);
    assert(head.len() == 24) by {
        assert(record_segment(key, value).len() == head.len() + stored_text(key).len()
            + stored_text(value).len());
    }
    assert((head + stored_text(key) + stored_text(value)).update(24 + at, byte) =~= head
        + stored_text(key).update(at, byte) + stored_text(value));
}

/// Overwriting a byte of the value's text in a record's segment gives the
/// segment of the record with that value.
pub proof fn lemma_patched_value(key: Seq<u8>, value: Seq<u8>, at: int, byte: u8)
    requires
        0 <= at < value.len(),
    ensures
        record_segment(key, value).update(24 + 8 * text_words(key.len() as int) + at, byte)
            == record_segment(key, value.update(at, byte)),
{
    reveal(record_segment);
    let head = root_pointer_bytes() + text_pointer_bytes(1, key.len() as int)
        + text_pointer_bytes(text_words(key.len() as int), value.len() as int);
    lemma_record_shape(key, value);
    lemma_record_shape(key, value.update(at, byte));
    lemma_stored_text(key);
    lemma_stored_text(value);
    lemma_patched_stored_text(value, at, byte);
    assert(head.len() == 24) by {
        assert(record_segment(key, value).len() == head.len() + stored_text(key).len()
            + stored_text(value).len());
    }
    assert((head + stored_text(key) + stored_text(value)).update(
        24 + 8 * text_words(key.len() as int) + at,
        byte,
    ) =~= head + stored_text(key) + stored_text(value).update(at, byte));
}

/// Replacing four bytes of a segment replaces those four bytes of its
/// message.
pub proof fn lemma_patched_half(segment: Seq<u8>, at: int, value: int)
    requires
        0 <= at,
        at + 4 <= segment.len(),
    ensures
        with_le32(single_segment_message(segment), 8 + at, value) == single_segment_message(
            with_le32(segment, at, value),
        ),
{
    lemma_le32_bytes_len(0);
    lemma_le32_bytes_len(segment.len() as int / 8);
    lemma_le32_bytes_len(value);
    assert(with_le32(single_segment_message(segment), 8 + at, value)
        =~= single_segment_message(with_le32(segment, at, value)));
}

} // verus!
