//! The byte buffers that records are written into: `BytesMut` while a record
//! grows, `Bytes` once it is complete. Both come from the `bytes` crate, and
//! what this module says of them is taken on trust from its source.

use bytes::{Bytes, BytesMut};
use vstd::prelude::*;

verus! {

/// `bytes::BytesMut`, a buffer of bytes that grows at its end. What it holds is
/// known through `written` alone.
#[verifier::external_type_specification]
#[verifier::external_body]
pub struct ExBytesMut(BytesMut);

/// `bytes::Bytes`, a buffer of bytes that no longer changes. What it holds is
/// known through `frozen` alone.
#[verifier::external_type_specification]
#[verifier::external_body]
pub struct ExBytes(Bytes);

/// The bytes that a `BytesMut` holds, first to last: what its `as_ref` shows.
pub uninterp spec fn written(buf: BytesMut) -> Seq<u8>;

/// The bytes that a `Bytes` holds, first to last: what its `as_ref` shows.
pub uninterp spec fn frozen(buf: Bytes) -> Seq<u8>;

/// `BytesMut::new` makes a buffer that holds nothing.
pub assume_specification[ BytesMut::new ]() -> (buf: BytesMut)
    ensures
        written(buf) == Seq::<u8>::empty(),
;

/// `BytesMut::with_capacity` makes a buffer that holds nothing and has room
/// for `capacity` bytes. It allocates a `Vec` of that capacity, which panics
/// where the capacity is more than `isize::MAX`.
pub assume_specification[ BytesMut::with_capacity ](capacity: usize) -> (buf: BytesMut)
    requires
        capacity <= isize::MAX,
    ensures
        written(buf) == Seq::<u8>::empty(),
;

/// `BytesMut::extend_from_slice` appends the slice and keeps what was there.
/// It reserves room first, which panics once the new length passes `usize`.
pub assume_specification[ BytesMut::extend_from_slice ](buf: &mut BytesMut, extend: &[u8])
    requires
        written(*old(buf)).len() + extend@.len() <= usize::MAX,
    ensures
        written(*final(buf)) == written(*old(buf)) + extend@,
;

/// `BytesMut::freeze` turns the buffer into a `Bytes` of the same content.
pub assume_specification[ BytesMut::freeze ](buf: BytesMut) -> (out: Bytes)
    ensures
        frozen(out) == written(buf),
;

} // verus!
