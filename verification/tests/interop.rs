//! The library's bytes held against the `capnp` crate's own builder and
//! reader, for a record of two text fields.

use bytes::Bytes;
use capnp::message::{Builder, ReaderOptions};
use capnp::private::layout::{
    PointerBuilder, PointerReader, StructBuilder, StructReader, StructSize,
};
use capnp::traits::{FromPointerBuilder, FromPointerReader};
use header_codec::{DecodeError, HttpHeader};

const RECORD_SIZE: StructSize = StructSize { data: 0, pointers: 2 };

struct RecordReader<'a>(StructReader<'a>);

impl<'a> FromPointerReader<'a> for RecordReader<'a> {
    fn get_from_pointer(
        reader: &PointerReader<'a>,
        default: Option<&'a [capnp::Word]>,
    ) -> capnp::Result<Self> {
        Ok(RecordReader(reader.get_struct(default)?))
    }
}

struct RecordBuilder<'a>(StructBuilder<'a>);

impl<'a> FromPointerBuilder<'a> for RecordBuilder<'a> {
    fn init_pointer(builder: PointerBuilder<'a>, _length: u32) -> Self {
        RecordBuilder(builder.init_struct(RECORD_SIZE))
    }

    fn get_from_pointer(
        builder: PointerBuilder<'a>,
        default: Option<&'a [capnp::Word]>,
    ) -> capnp::Result<Self> {
        Ok(RecordBuilder(builder.get_struct(RECORD_SIZE, default)?))
    }
}

/// The message that `capnp` builds for a record with these texts.
fn capnp_message(key: &str, value: &str) -> Vec<u8> {
    let mut message = Builder::new_default();
    {
        let mut record: RecordBuilder = message.init_root();
        record.0.reborrow().get_pointer_field(0).set_text(key.into());
        record.0.reborrow().get_pointer_field(1).set_text(value.into());
    }
    capnp::serialize::write_message_to_words(&message)
}

/// The texts that `capnp` reads from a message, or `None` where it rejects
/// the message.
fn capnp_texts(bytes: &[u8]) -> Option<(String, String)> {
    let mut input = bytes;
    let message = capnp::serialize::read_message(&mut input, ReaderOptions::default()).ok()?;
    let record: RecordReader = message.get_root().ok()?;
    let key = record.0.get_pointer_field(0).get_text(None).ok()?.to_str().ok()?.to_string();
    let value = record.0.get_pointer_field(1).get_text(None).ok()?.to_str().ok()?.to_string();
    Some((key, value))
}

fn library_message(key: &str, value: &str) -> Vec<u8> {
    HttpHeader::serialize(key.to_string(), value.to_string()).unwrap().to_vec()
}

fn library_texts(bytes: &[u8]) -> Result<(String, String), DecodeError> {
    match HttpHeader::deserialize(Bytes::copy_from_slice(bytes)) {
        Ok(header) => {
            let view = header.view();
            Ok((view.key.to_string(), view.value.to_string()))
        }
        Err(e) => Err(e),
    }
}

fn samples() -> Vec<(String, String)> {
    vec![
        (String::new(), String::new()),
        ("k".to_string(), String::new()),
        (String::new(), "v".to_string()),
        ("foo".to_string(), "bar".to_string()),
        ("1234567".to_string(), "12345678".to_string()),
        ("123456789".to_string(), "1234567890123456".to_string()),
        ("clé".to_string(), "värde € 𝄞".to_string()),
        ("content-type".to_string(), "text/html; charset=utf-8".to_string()),
        ("a".repeat(1000), "b".repeat(3000)),
    ]
}

#[test]
fn messages_equal_those_that_capnp_builds() {
    for (key, value) in samples() {
        assert_eq!(library_message(&key, &value), capnp_message(&key, &value), "{:?}", key);
    }
}

#[test]
fn capnp_reads_what_the_library_wrote() {
    for (key, value) in samples() {
        let bytes = library_message(&key, &value);
        assert_eq!(capnp_texts(&bytes), Some((key, value)));
    }
}

#[test]
fn capnp_reads_a_large_header_that_the_library_wrote() {
    let key = "foo_key".repeat(7000);
    let value = "bar_value".repeat(9000);
    let bytes = library_message(&key, &value);
    assert_eq!(bytes.len(), 8 + 24 + (49000 / 8 + 1) * 8 + (81000 / 8 + 1) * 8);
    assert_eq!(capnp_texts(&bytes), Some((key, value)));
}

#[test]
fn the_library_reads_what_capnp_built() {
    for (key, value) in samples() {
        let bytes = capnp_message(&key, &value);
        assert_eq!(library_texts(&bytes), Ok((key, value)));
    }
}

#[test]
fn a_record_spread_over_segments_is_a_bounds_violation() {
    // past its first segment `capnp` puts each text into a segment of its
    // own and leaves a far pointer in the slot
    let bytes = capnp_message(&"foo_key".repeat(7000), &"bar_value".repeat(9000));
    assert!(u32::from_le_bytes([bytes[0], bytes[1], bytes[2], bytes[3]]) > 0);
    assert_eq!(library_texts(&bytes), Err(DecodeError::BoundsViolation));
}

/// Whether some word of the first segment of a single-segment message
/// reads as a far pointer.
fn has_far_pointer(bytes: &[u8]) -> bool {
    bytes[8..].chunks(8).any(|word| word[0] & 3 == 2)
}

#[test]
fn patched_messages_are_judged_as_capnp_judges_them() {
    let intact = library_message("key", "wxyz");
    assert!(!has_far_pointer(&intact));
    let mut compared: u32 = 0;
    for at in 0..intact.len() {
        for byte in 0..=255u8 {
            let mut bytes = intact.clone();
            bytes[at] = byte;
            let ours = library_texts(&bytes);
            let theirs = capnp_texts(&bytes);
            match (&ours, &theirs) {
                (Ok(texts), Some(expected)) => assert_eq!(texts, expected, "{} {}", at, byte),
                (Err(_), None) => {}
                // the one thing that `capnp` follows and the library does not
                (Err(DecodeError::BoundsViolation), Some(_)) => {
                    assert!(has_far_pointer(&bytes), "{} {}", at, byte)
                }
                _ => panic!("at {} byte {}: {:?} against {:?}", at, byte, ours, theirs),
            }
            compared += 1;
        }
    }
    assert_eq!(compared, 48 * 256);
}

/// A fixed sequence of numbers that looks random.
fn next(state: &mut u64) -> u64 {
    *state = state
        .wrapping_mul(6364136223846793005)
        .wrapping_add(1442695040888963407);
    *state >> 33
}

#[test]
fn scrambled_pointers_are_judged_as_capnp_judges_them() {
    let intacts = [
        library_message("key", "wxyz"),
        library_message("", ""),
        library_message("a longer key of some words", "worth"),
    ];
    for intact in &intacts {
        assert!(!has_far_pointer(intact));
    }
    let mut state: u64 = 0x5EED;
    let mut accepted: u32 = 0;
    let mut rejected: u32 = 0;
    for round in 0..60_000u32 {
        let mut bytes = intacts[(round % 3) as usize].clone();
        // overwrite up to three bytes of the root pointer and the two slots
        let count = 1 + next(&mut state) % 3;
        for _ in 0..count {
            let at = 8 + (next(&mut state) % 24) as usize;
            // small values and values near the ends are the ones that matter
            let byte = match next(&mut state) % 4 {
                0 => (next(&mut state) % 8) as u8,
                1 => 0xF8 | (next(&mut state) % 8) as u8,
                _ => next(&mut state) as u8,
            };
            bytes[at] = byte;
        }
        let ours = library_texts(&bytes);
        let theirs = capnp_texts(&bytes);
        match (&ours, &theirs) {
            (Ok(texts), Some(expected)) => {
                assert_eq!(texts, expected, "{:?}", &bytes[..32]);
                accepted += 1;
            }
            (Err(_), None) => rejected += 1,
            (Err(DecodeError::BoundsViolation), Some(_)) => {
                assert!(has_far_pointer(&bytes), "{:?}", &bytes[..32])
            }
            _ => panic!("{:?}: {:?} against {:?}", &bytes[..32], ours, theirs),
        }
    }
    assert!(accepted > 1000, "{}", accepted);
    assert!(rejected > 1000, "{}", rejected);
}
