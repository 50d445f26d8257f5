use header_codec::HttpHeader;
use std::sync::mpsc;

fn transferable<T: Send + 'static>(value: T) -> T {
    value
}

#[test]
fn header_passes_through_a_single_slot_handoff() {
    let key = "foo_key".repeat(7000);
    let value = "bar_value".repeat(9000);
    let (sender, receiver) = mpsc::sync_channel(1);
    let data = HttpHeader::serialize(key.clone(), value.clone()).unwrap();
    let header = transferable(HttpHeader::deserialize(data).unwrap());
    sender.send(header).unwrap();
    drop(sender);
    let header = receiver.recv().unwrap();
    assert!(receiver.recv().is_err());
    let view = header.view();
    assert_eq!(view.key, key);
    assert_eq!(view.value, value);
}

#[test]
fn view_borrows_from_the_buffer() {
    let data = HttpHeader::serialize("key".repeat(100), "value".repeat(100)).unwrap();
    let buffer = data.as_ptr_range();
    let header = HttpHeader::deserialize(data.clone()).unwrap();
    let view = header.view();
    assert!(buffer.contains(&view.key.as_ptr()));
    assert!(buffer.contains(&view.value.as_ptr()));
    assert_eq!(view.key.as_ptr(), buffer.start.wrapping_add(32));
    assert_eq!(view.value.as_ptr(), buffer.start.wrapping_add(32 + 304));
}

#[test]
fn view_outlives_the_callers_handle_on_the_buffer() {
    let data = HttpHeader::serialize("k".to_string(), "v".to_string()).unwrap();
    let copy = data.clone();
    let header = HttpHeader::deserialize(data).unwrap();
    drop(copy);
    let moved = Box::new(header);
    assert_eq!(moved.view().key, "k");
    assert_eq!(moved.view().value, "v");
}

#[test]
fn view_can_be_taken_again_and_copied() {
    let data = HttpHeader::serialize("k".to_string(), "v".to_string()).unwrap();
    let header = HttpHeader::deserialize(data).unwrap();
    let first = header.view();
    let second = header.view();
    let copy = first;
    assert_eq!(first.key, second.key);
    assert_eq!(copy.value, "v");
}
