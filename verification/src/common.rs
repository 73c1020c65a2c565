//! The three things every record of the format can do: report its size,
//! append its bytes to a buffer, and be read back from bytes.

use crate::buffer::written;
use crate::wire::{parsed, DecodeError};
use bytes::BytesMut;
use vstd::prelude::*;

verus! {

/// A record that knows how many bytes it takes in a file.
pub trait ClsSize {
    /// True where the size of the record behind its size header fits a `u32`.
    spec fn contents_fit_cls(&self) -> bool;

    /// True where the size of the whole record fits a `u32`.
    spec fn fits_cls(&self) -> bool;

    /// The number of bytes of the record behind its own size header.
    spec fn spec_size_contents_in_cls(&self) -> nat;

    /// The number of bytes of the whole record, its size header included.
    spec fn spec_size_in_cls(&self) -> nat;

    /// Returns the byte size in the file, not including the size header.
    fn size_contents_in_cls(&self) -> (n: u32)
        requires
            self.contents_fit_cls(),
        ensures
            n == self.spec_size_contents_in_cls(),
    ;

    /// Returns the byte size in the file, including the size header.
    fn size_in_cls(&self) -> (n: u32)
        requires
            self.fits_cls(),
        ensures
            n == self.spec_size_in_cls(),
    ;
}

/// A record that can be written to a buffer.
pub trait ExtendBytesMut: ClsSize {
    /// The bytes that stand for the record in a file.
    spec fn cls_bytes(&self) -> Seq<u8>;

    /// True where every count and size that the record writes down fits the
    /// field that it is written to.
    spec fn fits_fields(&self) -> bool;

    /// The size that a record reports is the number of bytes that it writes.
    proof fn lemma_cls_bytes_len(&self)
        ensures
            self.cls_bytes().len() == self.spec_size_in_cls(),
    ;

    /// Appends the record to `extended` and leaves what was there in place.
    fn extend_bytes(&self, extended: &mut BytesMut)
        requires
            self.fits_fields(),
            written(*old(extended)).len() + self.spec_size_in_cls() <= usize::MAX,
        ensures
            written(*final(extended)) == written(*old(extended)) + self.cls_bytes(),
    ;
}

/// A record that can be read from the front of a byte slice.
pub trait TryFromBytes: Sized + View {
    /// What reading gives on `input`: the bytes left over and the record's
    /// value, or the reason why there is no record.
    spec fn spec_try_from_bytes(input: Seq<u8>) -> Result<(Seq<u8>, Self::V), DecodeError>;

    /// Reads one record from the front of `input` and returns it with the rest
    /// of the input.
    fn try_from_bytes(input: &[u8]) -> (r: Result<(&[u8], Self), DecodeError>)
        ensures
            parsed(r) == Self::spec_try_from_bytes(input@),
    ;
}

} // verus!
