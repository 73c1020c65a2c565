//! The name of a colour. A name is stored as UTF-16 and may take at most 128
//! bytes there, so a character that needs a surrogate pair counts twice.

use crate::buffer::written;
use crate::common::{ClsSize, ExtendBytesMut, TryFromBytes};
use crate::utf16::{
    decode_utf16, encode_utf16, lemma_decode_encode_utf16, lemma_units_of_le_bytes, push_utf16_le,
    string_from_utf16_le, units_of_le_bytes, utf16_le_bytes, utf16_len_within,
};
use crate::wire::{
    le_u16, le_u16_bytes, parsed, put_le_u16, spec_le_u16, spec_take, take, DecodeError,
};
use bytes::BytesMut;
use vstd::prelude::*;

verus! {

/// Why a text cannot be the name of a colour.
#[derive(Debug, PartialEq, Eq, Clone, Copy, Structural)]
pub enum ColorNameError {
    /// The text takes more than 128 bytes in UTF-16.
    EncodedStringOver128Bytes,
}

impl ColorNameError {
    /// The error in words.
    pub fn message(&self) -> (text: &'static str)
        ensures
            text@ == "Encoded String in utf16 is over 128 bytes."@,
    {
        "Encoded String in utf16 is over 128 bytes."
    }
}

/// The number of bytes that a text takes as UTF-16.
pub open spec fn utf16_byte_len(text: Seq<char>) -> nat {
    2 * encode_utf16(text).len()
}

/// True of a text that may be the name of a colour.
pub open spec fn valid_color_name(text: Seq<char>) -> bool {
    utf16_byte_len(text) <= 128
}

/// A name in a file: its length in bytes as a `u16`, then its UTF-16 code
/// units, all low byte first.
pub open spec fn color_name_bytes(text: Seq<char>) -> Seq<u8> {
    le_u16_bytes(utf16_byte_len(text) as u16) + utf16_le_bytes(encode_utf16(text))
}

/// Reading a name: the length, that many bytes, and the text they spell as
/// UTF-16, which must be a valid name.
pub open spec fn parse_color_name(input: Seq<u8>) -> Result<(Seq<u8>, Seq<char>), DecodeError> {
    match spec_le_u16(input) {
        Err(e) => Err(e),
        Ok((after_len, len)) => match spec_take(after_len, len as nat) {
            Err(e) => Err(e),
            Ok((rest, body)) => if body.len() % 2 != 0 {
                Err(DecodeError::InvalidUtf16)
            } else {
                match decode_utf16(units_of_le_bytes(body)) {
                    None => Err(DecodeError::InvalidUtf16),
                    Some(text) => if valid_color_name(text) {
                        Ok((rest, text))
                    } else {
                        Err(DecodeError::TooLong)
                    },
                }
            },
        },
    }
}

/// Reading what a valid name writes gives the name back and leaves what
/// followed it.
pub proof fn lemma_parse_color_name_bytes(text: Seq<char>, rest: Seq<u8>)
    requires
        valid_color_name(text),
    ensures
        parse_color_name(color_name_bytes(text) + rest) == Ok::<_, DecodeError>((rest, text)),
{
    let units = encode_utf16(text);
    let body = utf16_le_bytes(units);
    let input = color_name_bytes(text) + rest;
    let len = utf16_byte_len(text) as u16;
    assert(input.skip(2) =~= body + rest);
    assert(input[0] == (len % 256) as u8 && input[1] == (len / 256) as u8);
    assert((body + rest).skip(len as int) =~= rest);
    assert((body + rest).take(len as int) =~= body);
    lemma_units_of_le_bytes(units);
    lemma_decode_encode_utf16(text);
}

/// The name of a colour.
#[derive(Debug)]
pub struct ColorName {
    val: String,
    bytes_len_utf16: u16,
}

impl View for ColorName {
    type V = Seq<char>;

    closed spec fn view(&self) -> Seq<char> {
        self.val@
    }
}

impl ColorName {
    #[verifier::type_invariant]
    spec fn well_formed(&self) -> bool {
        &&& self.bytes_len_utf16 == utf16_byte_len(self.val@)
        &&& self.bytes_len_utf16 <= 128
    }

    /// The empty name.
    pub fn new() -> (name: Self)
        ensures
            name@ == Seq::<char>::empty(),
    {
        ColorName { val: String::new(), bytes_len_utf16: 0 }
    }

    /// The name `val`, where it is valid.
    pub fn with_str(val: &str) -> (r: Result<Self, ColorNameError>)
        ensures
            r is Ok <==> valid_color_name(val@),
            r matches Ok(name) ==> name@ == val@,
    {
        let mut cn = Self::new();
        match cn.set_str(val) {
            Ok(()) => Ok(cn),
            Err(e) => Err(e),
        }
    }

    /// Replaces the name by `val`, where that is valid, and else leaves the
    /// name as it is.
    pub fn set_str(&mut self, val: &str) -> (r: Result<(), ColorNameError>)
        ensures
            r is Ok <==> valid_color_name(val@),
            final(self)@ == if r is Ok {
                val@
            } else {
                old(self)@
            },
    {
        match utf16_len_within(val, 64) {
            Some(units) => {
                *self = ColorName { val: val.to_owned(), bytes_len_utf16: (2 * units) as u16 };
                Ok(())
            },
            None => Err(ColorNameError::EncodedStringOver128Bytes),
        }
    }

    /// Says whether `val` could be set as a name, and changes nothing.
    pub fn validate_str(val: &str) -> (r: Result<(), ColorNameError>)
        ensures
            r is Ok <==> valid_color_name(val@),
    {
        match utf16_len_within(val, 64) {
            Some(_) => Ok(()),
            None => Err(ColorNameError::EncodedStringOver128Bytes),
        }
    }

    /// The name as text. Every name is valid.
    pub fn as_str(&self) -> (text: &str)
        ensures
            text@ == self@,
            valid_color_name(self@),
    {
        proof {
            use_type_invariant(self);
        }
        self.val.as_str()
    }
}

impl Clone for ColorName {
    fn clone(&self) -> (name: Self)
        ensures
            name@ == self@,
    {
        proof {
            use_type_invariant(self);
        }
        ColorName { val: self.val.clone(), bytes_len_utf16: self.bytes_len_utf16 }
    }
}

impl PartialEq for ColorName {
    fn eq(&self, other: &Self) -> (r: bool) {
        proof {
            use_type_invariant(self);
            use_type_invariant(other);
        }
        self.val == other.val && self.bytes_len_utf16 == other.bytes_len_utf16
    }
}

impl vstd::std_specs::cmp::PartialEqSpecImpl for ColorName {
    open spec fn obeys_eq_spec() -> bool {
        true
    }

    open spec fn eq_spec(&self, other: &Self) -> bool {
        self@ == other@
    }
}

impl ClsSize for ColorName {
    open spec fn contents_fit_cls(&self) -> bool {
        true
    }

    open spec fn fits_cls(&self) -> bool {
        true
    }

    open spec fn spec_size_contents_in_cls(&self) -> nat {
        utf16_byte_len(self@)
    }

    open spec fn spec_size_in_cls(&self) -> nat {
        2 + utf16_byte_len(self@)
    }

    fn size_contents_in_cls(&self) -> (n: u32)
        ensures
            n <= 128,
    {
        proof {
            use_type_invariant(self);
        }
        self.bytes_len_utf16 as u32
    }

    fn size_in_cls(&self) -> (n: u32)
        ensures
            n <= 130,
    {
        2 + self.size_contents_in_cls()
    }
}

impl ExtendBytesMut for ColorName {
    open spec fn cls_bytes(&self) -> Seq<u8> {
        color_name_bytes(self@)
    }

    open spec fn fits_fields(&self) -> bool {
        true
    }

    proof fn lemma_cls_bytes_len(&self) {
    }

    fn extend_bytes(&self, extended: &mut BytesMut)
        ensures
            valid_color_name(self@),
    {
        proof {
            use_type_invariant(self);
        }
        put_le_u16(extended, self.bytes_len_utf16);
        let mut units: Vec<u8> = Vec::new();
        push_utf16_le(self.val.as_str(), &mut units);
        extended.extend_from_slice(units.as_slice());
        proof {
            assert(written(*extended) =~= written(*old(extended)) + color_name_bytes(self@));
        }
    }
}

/// Reads the name of a colour from the front of `input`.
pub fn bytes_color_name(input: &[u8]) -> (r: Result<(&[u8], ColorName), DecodeError>)
    ensures
        parsed(r) == parse_color_name(input@),
{
    let (input, color_name_size) = le_u16(input)?;
    let (input, color_name_bytes) = take(input, color_name_size as usize)?;
    let color_name_str = match string_from_utf16_le(color_name_bytes) {
        Some(text) => text,
        None => {
            return Err(DecodeError::InvalidUtf16);
        },
    };
    let mut color_name = ColorName::new();
    match color_name.set_str(color_name_str.as_str()) {
        Ok(()) => Ok((input, color_name)),
        Err(_) => Err(DecodeError::TooLong),
    }
}

impl TryFromBytes for ColorName {
    open spec fn spec_try_from_bytes(input: Seq<u8>) -> Result<
        (Seq<u8>, Seq<char>),
        DecodeError,
    > {
        parse_color_name(input)
    }

    fn try_from_bytes(input: &[u8]) -> (r: Result<(&[u8], ColorName), DecodeError>) {
        bytes_color_name(input)
    }
}

} // verus!
