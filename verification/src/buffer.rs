//! The byte buffers that messages are written into and read from.
//!
//! Both are types of the `bytes` crate and opaque to the verifier. What
//! follows gives the bytes they hold a name and states, unproved, what the
//! calls made on them do to those bytes.

use vstd::prelude::*;
use bytes::{Bytes, BytesMut};

verus! {

/// `bytes::Bytes`: an immutable, cheaply shared run of bytes.
#[verifier::external_type_specification]
#[verifier::external_body]
pub struct ExBytes(bytes::Bytes);

/// `bytes::BytesMut`: a growable run of bytes with one owner.
#[verifier::external_type_specification]
#[verifier::external_body]
pub struct ExBytesMut(bytes::BytesMut);

/// The bytes that a `Bytes` holds, first to last.
pub uninterp spec fn contents(buffer: Bytes) -> Seq<u8>;

/// The bytes written to a `BytesMut` so far, first to last.
pub uninterp spec fn written(buffer: BytesMut) -> Seq<u8>;

/// `BytesMut::with_capacity`: a buffer with room for `capacity` bytes and
/// nothing written to it.
#[verifier::external_body]
pub(crate) fn with_capacity(capacity: usize) -> (buffer: BytesMut)
    ensures
        written(buffer) == Seq::<u8>::empty(),
{
    BytesMut::with_capacity(capacity)
}

/// `BytesMut::freeze`: the same bytes, now immutable.
#[verifier::external_body]
pub(crate) fn freeze(buffer: BytesMut) -> (frozen: Bytes)
    ensures
        contents(frozen) == written(buffer),
{
    buffer.freeze()
}

} // verus!
