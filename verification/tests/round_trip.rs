use bytes::Bytes;
use header_codec::{DecodeError, EncodeError, HttpHeader};

fn message(key: &str, value: &str) -> Bytes {
    HttpHeader::serialize(key.to_string(), value.to_string()).unwrap()
}

#[test]
fn small_header_has_the_expected_bytes() {
    let data = message("foo", "bar");
    let expected: Vec<u8> = vec![
        0, 0, 0, 0, 5, 0, 0, 0, // one segment of five words
        0, 0, 0, 0, 0, 0, 2, 0, // root: record follows, two pointer slots
        5, 0, 0, 0, 0x22, 0, 0, 0, // key: one word on, four bytes
        5, 0, 0, 0, 0x22, 0, 0, 0, // value: one word on, four bytes
        b'f', b'o', b'o', 0, 0, 0, 0, 0, //
        b'b', b'a', b'r', 0, 0, 0, 0, 0,
    ];
    assert_eq!(&data[..], &expected[..]);
}

#[test]
fn small_header_round_trips() {
    let header = HttpHeader::deserialize(message("foo", "bar")).unwrap();
    let view = header.view();
    assert_eq!(view.key, "foo");
    assert_eq!(view.value, "bar");
}

#[test]
fn empty_strings_round_trip() {
    let data = message("", "");
    assert_eq!(data.len(), 48);
    assert_eq!(&data[24..32], &[5, 0, 0, 0, 0x0a, 0, 0, 0]);
    let header = HttpHeader::deserialize(data).unwrap();
    assert_eq!(header.view().key, "");
    assert_eq!(header.view().value, "");
}

#[test]
fn large_header_round_trips() {
    let key = "foo_key".repeat(7000);
    let value = "bar_value".repeat(9000);
    let data = HttpHeader::serialize(key.clone(), value.clone()).unwrap();
    let header = HttpHeader::deserialize(data).unwrap();
    assert_eq!(header.view().key, key);
    assert_eq!(header.view().value, value);
}

#[test]
fn text_that_fills_its_last_word_gets_a_word_for_the_terminator() {
    let data = message("12345678", "v");
    // table, root, two pointers, two words of key, one of value
    assert_eq!(data.len(), 8 + 24 + 16 + 8);
    assert_eq!(&data[16..24], &[5, 0, 0, 0, 0x4a, 0, 0, 0]);
    assert_eq!(&data[24..32], &[9, 0, 0, 0, 0x12, 0, 0, 0]);
    let header = HttpHeader::deserialize(data).unwrap();
    assert_eq!(header.view().key, "12345678");
    assert_eq!(header.view().value, "v");
}

#[test]
fn multibyte_text_round_trips() {
    let header = HttpHeader::deserialize(message("clé", "värde €")).unwrap();
    assert_eq!(header.view().key, "clé");
    assert_eq!(header.view().value, "värde €");
}

#[test]
fn errors_compare() {
    assert_ne!(DecodeError::Framing, DecodeError::Encoding);
    assert_eq!(EncodeError::TextTooLong, EncodeError::TextTooLong);
}

#[test]
fn text_longer_than_a_pointer_can_describe_is_refused() {
    let long = "a".repeat(0x1FFF_FFFF);
    let refused = HttpHeader::serialize(long.clone(), String::new());
    assert_eq!(refused.err(), Some(EncodeError::TextTooLong));
    let refused = HttpHeader::serialize(String::new(), long);
    assert_eq!(refused.err(), Some(EncodeError::TextTooLong));
}

#[test]
fn longest_text_is_written_but_too_large_to_be_read_back() {
    let longest = "a".repeat(0x1FFF_FFFE);
    let data = HttpHeader::serialize(longest, String::new()).unwrap();
    assert_eq!(data.len(), 8 + 24 + 0x2000_0000 + 8);
    assert_eq!(&data[16..24], &[5, 0, 0, 0, 0xFA, 0xFF, 0xFF, 0xFF]);
    assert_eq!(HttpHeader::deserialize(data).err(), Some(DecodeError::Framing));
}

#[test]
fn largest_header_within_the_word_limit_round_trips() {
    // 0x80_0000 words in all: three of pointers, one for the empty value
    let key = "k".repeat(8 * (0x80_0000 - 4) - 1);
    let data = HttpHeader::serialize(key.clone(), String::new()).unwrap();
    assert_eq!(data.len(), 8 + 8 * 0x80_0000);
    let header = HttpHeader::deserialize(data).unwrap();
    assert!(header.view().key == key);
    assert_eq!(header.view().value, "");
    // one word more and the message is refused
    let key = "k".repeat(8 * (0x80_0000 - 4));
    let data = HttpHeader::serialize(key, String::new()).unwrap();
    assert_eq!(HttpHeader::deserialize(data).err(), Some(DecodeError::Framing));
}
