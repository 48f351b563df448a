//! What the codec relies on of the byte buffer that it reads from and writes
//! to. Nothing in this file is proved: each item states what the buffer's own
//! source shows.

use bytes::BytesMut;
use vstd::prelude::*;

verus! {

/// The growable byte buffer of the `bytes` crate, carried through as it is.
#[verifier::external_type_specification]
#[verifier::external_body]
pub struct ExBytesMut(BytesMut);

/// The bytes that a buffer holds, the oldest first.
pub uninterp spec fn buffered(buffer: BytesMut) -> Seq<u8>;

/// `BytesMut::len`: the number of bytes that the buffer holds.
pub assume_specification[ BytesMut::len ](buffer: &BytesMut) -> (len: usize)
    ensures
        len == buffered(*buffer).len(),
;

/// `AsRef::<[u8]>::as_ref` of `BytesMut`: the bytes that the buffer holds, as
/// a slice.
pub assume_specification<'a>[ <BytesMut as AsRef<[u8]>>::as_ref ](buffer: &'a BytesMut) -> (bytes:
    &'a [u8])
    ensures
        bytes@ == buffered(*buffer),
;

/// `BytesMut::advance`: drops the first `cnt` bytes and keeps the rest. It
/// panics where the buffer holds fewer than `cnt` bytes, so that is left out.
pub assume_specification[ BytesMut::advance ](buffer: &mut BytesMut, cnt: usize)
    requires
        cnt <= buffered(*old(buffer)).len(),
    ensures
        buffered(*final(buffer)) == buffered(*old(buffer)).skip(cnt as int),
;

/// `BytesMut::extend_from_slice`: makes room where it is needed and appends
/// the bytes of `extend`. It panics where the new length does not fit in
/// `usize`, so that is left out.
pub assume_specification[ BytesMut::extend_from_slice ](buffer: &mut BytesMut, extend: &[u8])
    requires
        buffered(*old(buffer)).len() + extend@.len() <= usize::MAX,
    ensures
        buffered(*final(buffer)) == buffered(*old(buffer)) + extend@,
;

} // verus!
