//! Little-endian integers and byte runs, the primitives every record of the
//! format is built from.

use crate::buffer::written;
use bytes::BytesMut;
use vstd::prelude::*;

verus! {

/// Why a byte sequence could not be read as a record of the format.
#[derive(Debug, Clone, Copy, PartialEq, Eq, Structural)]
pub enum DecodeError {
    /// The input ended before a field was complete.
    TruncatedInput,
    /// A colour name is not well-formed UTF-16.
    InvalidUtf16,
    /// The colour set name is not well-formed UTF-8.
    InvalidUtf8,
    /// A name is longer than the format allows.
    TooLong,
    /// The segment list holds no segment.
    EmptySegmentList,
    /// The segment list does not hold as many segments as it declares.
    SegmentCountMismatch,
}

impl DecodeError {
    /// The error in words.
    pub fn message(&self) -> (text: &'static str)
        ensures
            text@ == match self {
                DecodeError::TruncatedInput => "The input ends before the record does."@,
                DecodeError::InvalidUtf16 => "The color name is not UTF-16."@,
                DecodeError::InvalidUtf8 => "The colorset name is not UTF-8."@,
                DecodeError::TooLong => "The name is too long."@,
                DecodeError::EmptySegmentList => "Color segments is empty!"@,
                DecodeError::SegmentCountMismatch => "Error in read color segments"@,
            },
    {
        match self {
            DecodeError::TruncatedInput => "The input ends before the record does.",
            DecodeError::InvalidUtf16 => "The color name is not UTF-16.",
            DecodeError::InvalidUtf8 => "The colorset name is not UTF-8.",
            DecodeError::TooLong => "The name is too long.",
            DecodeError::EmptySegmentList => "Color segments is empty!",
            DecodeError::SegmentCountMismatch => "Error in read color segments",
        }
    }
}

/// The two bytes of `x`, low byte first.
pub open spec fn le_u16_bytes(x: u16) -> Seq<u8> {
    seq![(x % 256) as u8, (x / 256) as u8]
}

/// The four bytes of `x`, low byte first.
pub open spec fn le_u32_bytes(x: u32) -> Seq<u8> {
    seq![
        (x % 256) as u8,
        (x / 256 % 256) as u8,
        (x / 65536 % 256) as u8,
        (x / 16777216) as u8,
    ]
}

/// The integer whose low byte is `b[0]` and whose high byte is `b[1]`.
pub open spec fn le_u16_value(b: Seq<u8>) -> u16
    recommends
        b.len() >= 2,
{
    (b[0] + 256 * b[1]) as u16
}

/// The integer that the first four bytes of `b` spell, low byte first.
pub open spec fn le_u32_value(b: Seq<u8>) -> u32
    recommends
        b.len() >= 4,
{
    (b[0] + 256 * b[1] + 65536 * b[2] + 16777216 * b[3]) as u32
}

/// What a reader hands back, with slices and values taken by their views.
pub open spec fn parsed<T: View>(r: Result<(&[u8], T), DecodeError>) -> Result<
    (Seq<u8>, T::V),
    DecodeError,
> {
    match r {
        Ok((rest, value)) => Ok((rest@, value@)),
        Err(e) => Err(e),
    }
}

/// Reading a `u16`: the value of the first two bytes and what follows them.
pub open spec fn spec_le_u16(input: Seq<u8>) -> Result<(Seq<u8>, u16), DecodeError> {
    if input.len() < 2 {
        Err(DecodeError::TruncatedInput)
    } else {
        Ok((input.skip(2), le_u16_value(input)))
    }
}

/// Reading a `u32`: the value of the first four bytes and what follows them.
pub open spec fn spec_le_u32(input: Seq<u8>) -> Result<(Seq<u8>, u32), DecodeError> {
    if input.len() < 4 {
        Err(DecodeError::TruncatedInput)
    } else {
        Ok((input.skip(4), le_u32_value(input)))
    }
}

/// Cutting off the first `n` bytes: what follows them, and the bytes cut off.
pub open spec fn spec_take(input: Seq<u8>, n: nat) -> Result<(Seq<u8>, Seq<u8>), DecodeError> {
    if input.len() < n {
        Err(DecodeError::TruncatedInput)
    } else {
        Ok((input.skip(n as int), input.take(n as int)))
    }
}

/// Reading what a `u16` writes gives it back and leaves what followed it.
pub proof fn lemma_spec_le_u16(x: u16, rest: Seq<u8>)
    ensures
        spec_le_u16(le_u16_bytes(x) + rest) == Ok::<_, DecodeError>((rest, x)),
{
    assert((le_u16_bytes(x) + rest).skip(2) =~= rest);
}

/// Reading what a `u32` writes gives it back and leaves what followed it.
pub proof fn lemma_spec_le_u32(x: u32, rest: Seq<u8>)
    ensures
        spec_le_u32(le_u32_bytes(x) + rest) == Ok::<_, DecodeError>((rest, x)),
{
    assert((le_u32_bytes(x) + rest).skip(4) =~= rest);
}

/// Cutting off what was put in front gives it back and leaves what followed it.
pub proof fn lemma_spec_take(head: Seq<u8>, rest: Seq<u8>)
    ensures
        spec_take(head + rest, head.len()) == Ok::<_, DecodeError>((rest, head)),
{
    assert((head + rest).skip(head.len() as int) =~= rest);
    assert((head + rest).take(head.len() as int) =~= head);
}

/// Reads a little-endian `u16` from the front of `input`.
pub fn le_u16(input: &[u8]) -> (r: Result<(&[u8], u16), DecodeError>)
    ensures
        parsed(r) == spec_le_u16(input@),
{
    if input.len() < 2 {
        return Err(DecodeError::TruncatedInput);
    }
    let (head, rest) = input.split_at(2);
    let value: u16 = head[0] as u16 + 256 * (head[1] as u16);
    Ok((rest, value))
}

/// Reads a little-endian `u32` from the front of `input`.
pub fn le_u32(input: &[u8]) -> (r: Result<(&[u8], u32), DecodeError>)
    ensures
        parsed(r) == spec_le_u32(input@),
{
    if input.len() < 4 {
        return Err(DecodeError::TruncatedInput);
    }
    let (head, rest) = input.split_at(4);
    let value: u32 = head[0] as u32 + 256 * (head[1] as u32) + 65536 * (head[2] as u32) + 16777216
        * (head[3] as u32);
    Ok((rest, value))
}

/// Cuts the first `n` bytes off `input`.
pub fn take(input: &[u8], n: usize) -> (r: Result<(&[u8], &[u8]), DecodeError>)
    ensures
        match r {
            Ok((rest, head)) => spec_take(input@, n as nat) == Ok::<_, DecodeError>((rest@, head@)),
            Err(e) => spec_take(input@, n as nat) == Err::<(Seq<u8>, Seq<u8>), _>(e),
        },
{
    if input.len() < n {
        return Err(DecodeError::TruncatedInput);
    }
    let (head, rest) = input.split_at(n);
    Ok((rest, head))
}

/// Appends `x` to `buf`, low byte first.
pub fn put_le_u16(buf: &mut BytesMut, x: u16)
    requires
        written(*old(buf)).len() + 2 <= usize::MAX,
    ensures
        written(*final(buf)) == written(*old(buf)) + le_u16_bytes(x),
{
    buf.extend_from_slice(&[(x % 256) as u8, (x / 256) as u8]);
}

/// Appends `x` to `buf`, low byte first.
pub fn put_le_u32(buf: &mut BytesMut, x: u32)
    requires
        written(*old(buf)).len() + 4 <= usize::MAX,
    ensures
        written(*final(buf)) == written(*old(buf)) + le_u32_bytes(x),
{
    buf.extend_from_slice(
        &[(x % 256) as u8, (x / 256 % 256) as u8, (x / 65536 % 256) as u8, (x / 16777216) as u8],
    );
}

} // verus!
