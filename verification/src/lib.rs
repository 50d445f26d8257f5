//! A zero-copy codec for one key/value header record.
//!
//! A header is carried as a single framed message: a segment table, then
//! word-aligned segments, the first of which starts with the root pointer of
//! a record with two text fields. [`HttpHeader::serialize`] writes such a
//! message, [`HttpHeader::deserialize`] validates one and binds the decoded
//! string slices to the buffer they borrow from, and [`HttpHeader::view`]
//! hands them out without copying or validating again.
//!
//! Every function states its result over the mathematical model in
//! [`layout`], [`framing`] and [`message`]. The laws that relate encoding
//! and decoding are proved in [`laws`], from the lemmas in [`shape`].
//!
//! The segment table is read and written by `capnp`, the buffers are those
//! of `bytes`, and a decoded header is bound to its buffer by `yoke`. What
//! is assumed of these crates stands in [`framing`], [`buffer`] and
//! [`owner`], and what is assumed of the standard library's UTF-8 check in
//! [`decode`]. The layout of the record inside its segment is read and
//! written here, and proved.

pub mod buffer;
pub mod decode;
pub mod encode;
pub mod endian;
pub mod error;
pub mod framing;
pub mod header;
pub mod laws;
pub mod layout;
pub mod message;
pub mod owner;
pub mod shape;

pub use error::{DecodeError, EncodeError};
pub use header::HttpHeader;
pub use owner::HttpHeaderView;
