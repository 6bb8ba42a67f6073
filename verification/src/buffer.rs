//! The byte buffer that frames are built in and parsed out of.
//!
//! The buffer is [`bytes::BytesMut`]. Nothing in this file is proved: each
//! item states what one function of that crate does to the buffered bytes,
//! and the rest of the library is verified against these statements.

use bytes::{Buf, BufMut, BytesMut};
use vstd::prelude::*;

verus! {

/// `bytes::BytesMut`, opaque here: its contents are spoken of through
/// [`buffered`] alone.
#[verifier::external_type_specification]
#[verifier::external_body]
pub struct ExBytesMut(bytes::BytesMut);

/// The bytes that a buffer holds, first to last.
pub uninterp spec fn buffered(buf: BytesMut) -> Seq<u8>;

/// `buf` can take `more` bytes: with them it stays within half of the largest
/// allocation. The other half is for bytes that were taken from the front of
/// the buffer and whose room it may not have reused yet.
pub open spec fn has_room(buf: BytesMut, more: nat) -> bool {
    2 * (buffered(buf).len() + more) <= isize::MAX
}

/// `BytesMut::new` makes a buffer that holds nothing.
pub assume_specification[ bytes::BytesMut::new ]() -> (buf: BytesMut)
    ensures
        buffered(buf) == Seq::<u8>::empty(),
;

/// `BytesMut::len` is the number of bytes held.
pub assume_specification[ bytes::BytesMut::len ](buf: &BytesMut) -> (len: usize)
    ensures
        len == buffered(*buf).len(),
;

/// `BytesMut::extend_from_slice` appends the slice. It panics when the bytes
/// do not fit in an allocation; see [`has_room`].
pub assume_specification[ bytes::BytesMut::extend_from_slice ](
    buf: &mut BytesMut,
    extend: &[u8],
)
    requires
        has_room(*old(buf), extend@.len()),
    ensures
        buffered(*final(buf)) == buffered(*old(buf)) + extend@,
;

/// `<BytesMut as Deref>::deref`: the held bytes as a slice.
#[verifier::external_body]
pub(crate) fn as_slice(buf: &BytesMut) -> (bytes: &[u8])
    ensures
        bytes@ == buffered(*buf),
{
    buf
}

/// `<BytesMut as Buf>::advance` drops the first `count` bytes. It panics when
/// fewer are held.
#[verifier::external_body]
pub(crate) fn advance(buf: &mut BytesMut, count: usize)
    requires
        count <= buffered(*old(buf)).len(),
    ensures
        buffered(*final(buf)) == buffered(*old(buf)).skip(count as int),
{
    buf.advance(count);
}

/// `<BytesMut as BufMut>::put_bytes` appends `count` copies of `value`. It
/// panics when the bytes do not fit in an allocation; see [`has_room`].
#[verifier::external_body]
pub(crate) fn put_bytes(buf: &mut BytesMut, value: u8, count: usize)
    requires
        has_room(*old(buf), count as nat),
    ensures
        buffered(*final(buf)) == buffered(*old(buf)) + Seq::new(count as nat, |i: int| value),
{
    buf.put_bytes(value, count);
}

} // verus!
