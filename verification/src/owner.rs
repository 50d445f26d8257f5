//! A decoded header bound to the buffer it borrows from.
//!
//! The two strings of a decoded header point into the message's buffer. To
//! keep them, the buffer has to be kept too, at an address that does not
//! change, and dropped only after them. `yoke::Yoke` does this: it takes
//! the boxed buffer (the cart), runs the decoder once on a borrow of it,
//! and holds the result and the cart as one value that can be moved, also
//! to another thread, and that hands the strings out again for as long as
//! it is borrowed.
//!
//! `Yoke` is opaque to the verifier, and what is stated of it here is taken
//! on trust.

use vstd::prelude::*;
use bytes::Bytes;
use capnp::serialize::BufferSegments;
use yoke::Yoke;
use crate::error::DecodeError;
use crate::framing::{framed_bytes, well_framed};
use crate::layout::HeaderText;
use crate::message::{message_header, read_message};

verus! {

/// A framed message and the header decoded from it, held together by a
/// `yoke::Yoke` whose cart is the boxed message.
#[verifier::external_body]
pub struct Owner {
    yoke: Yoke<(&'static str, &'static str), Box<BufferSegments<Bytes>>>,
}

/// A view into a valid header: two strings that borrow from its buffer.
#[derive(Clone, Copy, Debug)]
pub struct HttpHeaderView<'a> {
    pub key: &'a str,
    pub value: &'a str,
}

impl<'a> View for HttpHeaderView<'a> {
    type V = HeaderText;

    open spec fn view(&self) -> HeaderText {
        HeaderText { key: self.key@, value: self.value@ }
    }
}

/// The header that an `Owner` holds.
pub uninterp spec fn bound_header(owner: Owner) -> HeaderText;

/// `Yoke::try_attach_to_cart` with the message as the cart and the decoder
/// as the function that makes the view. `Yoke` calls that function once,
/// on a borrow of the cart; where it fails, its error is returned and no
/// owner is made; where it succeeds, the owner holds what it returned.
#[verifier::external_body]
pub(crate) fn bind(cart: Box<BufferSegments<Bytes>>) -> (bound: Result<Owner, DecodeError>)
    requires
        well_framed(framed_bytes(*cart)),
    ensures
        match bound {
            Ok(owner) => message_header(framed_bytes(*cart)) == Ok::<HeaderText, DecodeError>(
                bound_header(owner),
            ),
            Err(e) => message_header(framed_bytes(*cart)) == Err::<HeaderText, DecodeError>(e),
        },
{
    match Yoke::try_attach_to_cart(cart, |segments| read_message(segments)) {
        Ok(yoke) => Ok(Owner { yoke }),
        Err(e) => Err(e),
    }
}

/// `Yoke::get`: the strings that the owner holds, borrowed for as long as
/// the owner is.
#[verifier::external_body]
pub(crate) fn borrow<'a>(owner: &'a Owner) -> (view: HttpHeaderView<'a>)
    ensures
        view@ == bound_header(*owner),
{
    let texts = owner.yoke.get();
    HttpHeaderView { key: texts.0, value: texts.1 }
}

} // verus!
