//! The header itself: what callers serialize, deserialize and read.

use vstd::prelude::*;
use vstd::string::*;
use bytes::Bytes;
use crate::buffer::contents;
use crate::error::{DecodeError, EncodeError};
use crate::framing::frame;
use crate::layout::{encodable, HeaderText};
use crate::message::{header_message, message_header, write_message};
use crate::owner::{bind, borrow, bound_header, HttpHeaderView, Owner};

verus! {

/// A deserialized header message.
///
/// It owns the buffer it was read from and offers a view into the
/// validated texts that the buffer holds.
pub struct HttpHeader {
    parsed: Owner,
}

impl HttpHeader {
    /// The texts of the header.
    pub closed spec fn texts(&self) -> HeaderText {
        bound_header(self.parsed)
    }

    /// Serializes a header with the given key and value.
    ///
    /// Succeeds exactly when both texts are at most `MAX_TEXT_LEN` bytes
    /// long, and then returns the one message that stands for them.
    pub fn serialize(key: String, val: String) -> (message: Result<Bytes, EncodeError>)
        ensures
            match message {
                Ok(data) => encodable(key@, val@) && contents(data) == header_message(
                    key@,
                    val@,
                ),
                Err(e) => !encodable(key@, val@) && e == EncodeError::TextTooLong,
            },
    {
        write_message(key.as_str(), val.as_str())
    }

    /// Validates a message and binds the header it holds to its buffer.
    ///
    /// The result is the one that `message_header` gives for the bytes of
    /// `data`: the header on success, and else the first defect found.
    pub fn deserialize(data: Bytes) -> (header: Result<HttpHeader, DecodeError>)
        ensures
            match header {
                Ok(h) => message_header(contents(data)) == Ok::<HeaderText, DecodeError>(
                    h.texts(),
                ),
                Err(e) => message_header(contents(data)) == Err::<HeaderText, DecodeError>(e),
            },
    {
        match frame(data) {
            Err(_) => Err(DecodeError::Framing),
            Ok(segments) => match bind(Box::new(segments)) {
                Ok(parsed) => Ok(HttpHeader { parsed }),
                Err(e) => Err(e),
            },
        }
    }

    /// The key and value of the header, borrowed from its buffer.
    pub fn view(&self) -> (view: HttpHeaderView<'_>)
        ensures
            view@ == self.texts(),
    {
        borrow(&self.parsed)
    }
}

} // verus!
