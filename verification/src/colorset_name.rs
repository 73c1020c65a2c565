//! The name of a colour set. A file holds it twice: as Shift_JIS for old
//! readers and as UTF-8, which is the one that counts. A name takes at most
//! 192 bytes in UTF-8 and has at most 64 characters, where a character of four
//! bytes counts as two.

use crate::buffer::written;
use crate::common::{ClsSize, ExtendBytesMut, TryFromBytes};
use crate::sjis::{encode_sjis, len_utf8, sjis_lossy, utf8_width};
use crate::text::str_from_utf8;
use crate::wire::{
    le_u16, le_u16_bytes, le_u32, le_u32_bytes, lemma_spec_le_u16, lemma_spec_le_u32,
    lemma_spec_take, parsed, put_le_u16, put_le_u32, spec_le_u16, spec_le_u32, spec_take, take,
    DecodeError,
};
use bytes::BytesMut;
use vstd::prelude::*;
use vstd::utf8::{
    decode_utf8, encode_utf8, encode_utf8_decode_utf8, encode_utf8_valid_utf8, valid_utf8,
};

verus! {

/// Why a text cannot be the name of a colour set.
#[derive(Debug, PartialEq, Eq, Clone, Copy, Structural)]
pub enum ColorsetNameError {
    /// The text takes more than 192 bytes in UTF-8.
    StringOver192Bytes,
    /// The text counts more than 64 characters.
    CharCountExceeded64,
}

impl ColorsetNameError {
    /// The error in words.
    pub fn message(&self) -> (text: &'static str)
        ensures
            text@ == match self {
                ColorsetNameError::StringOver192Bytes => "String is over 192 bytes."@,
                ColorsetNameError::CharCountExceeded64 => (
                "Char count is exceeded 64.(A 4bytes utf8 char is counted 2 char.)")@,
            },
    {
        match self {
            ColorsetNameError::StringOver192Bytes => "String is over 192 bytes.",
            ColorsetNameError::CharCountExceeded64 => {
                "Char count is exceeded 64.(A 4bytes utf8 char is counted 2 char.)"
            },
        }
    }
}

/// What one character adds to the count of a name: two where it takes four
/// bytes in UTF-8, one otherwise.
pub open spec fn char_weight(c: char) -> nat {
    if utf8_width(c) == 4 {
        2
    } else {
        1
    }
}

/// The count of a text: what its characters add, taken together.
pub open spec fn char_count(text: Seq<char>) -> nat
    decreases text.len(),
{
    if text.len() == 0 {
        0
    } else {
        char_weight(text[0]) + char_count(text.drop_first())
    }
}

/// What stands in the way of a text as the name of a colour set, if anything.
pub open spec fn check_colorset_name(text: Seq<char>) -> Result<(), ColorsetNameError> {
    if encode_utf8(text).len() > 192 {
        Err(ColorsetNameError::StringOver192Bytes)
    } else if char_count(text) > 64 {
        Err(ColorsetNameError::CharCountExceeded64)
    } else {
        Ok(())
    }
}

/// True of a text that may be the name of a colour set.
pub open spec fn valid_colorset_name(text: Seq<char>) -> bool {
    encode_utf8(text).len() <= 192 && char_count(text) <= 64
}

/// A name in a file, given its Shift_JIS copy and its UTF-8 bytes: the size
/// of what follows as a `u32`, the length of the copy as a `u16`, the copy,
/// four zero bytes, the length of the UTF-8 bytes as a `u16`, and those bytes.
pub open spec fn name_block(sjis: Seq<u8>, utf8: Seq<u8>) -> Seq<u8> {
    le_u32_bytes((8 + sjis.len() + utf8.len()) as u32) + le_u16_bytes(sjis.len() as u16) + sjis
        + le_u32_bytes(0) + le_u16_bytes(utf8.len() as u16) + utf8
}

/// The name of a colour set in a file.
pub open spec fn colorset_name_bytes(text: Seq<char>) -> Seq<u8> {
    name_block(sjis_lossy(text), encode_utf8(text))
}

/// Reading a name: the size header and the Shift_JIS copy are passed over,
/// as are the four bytes behind the copy; the UTF-8 bytes must be well-formed
/// and spell a valid name.
#[verifier::opaque]
pub open spec fn parse_colorset_name(input: Seq<u8>) -> Result<(Seq<u8>, Seq<char>), DecodeError> {
    match spec_le_u32(input) {
        Err(e) => Err(e),
        Ok((after_size, _)) => match spec_le_u16(after_size) {
            Err(e) => Err(e),
            Ok((after_sjis_len, sjis_len)) => match spec_take(after_sjis_len, sjis_len as nat) {
                Err(e) => Err(e),
                Ok((after_sjis, _)) => match spec_le_u32(after_sjis) {
                    Err(e) => Err(e),
                    Ok((after_delimiter, _)) => match spec_le_u16(after_delimiter) {
                        Err(e) => Err(e),
                        Ok((after_utf8_len, utf8_len)) => match spec_take(
                            after_utf8_len,
                            utf8_len as nat,
                        ) {
                            Err(e) => Err(e),
                            Ok((rest, utf8)) => if !valid_utf8(utf8) {
                                Err(DecodeError::InvalidUtf8)
                            } else if !valid_colorset_name(decode_utf8(utf8)) {
                                Err(DecodeError::TooLong)
                            } else {
                                Ok((rest, decode_utf8(utf8)))
                            },
                        },
                    },
                },
            },
        },
    }
}

/// The count of two texts joined is the sum of their counts.
pub proof fn lemma_char_count_concat(a: Seq<char>, b: Seq<char>)
    ensures
        char_count(a + b) == char_count(a) + char_count(b),
    decreases a.len(),
{
    if a.len() == 0 {
        assert(a + b =~= b);
    } else {
        assert((a + b).drop_first() =~= a.drop_first() + b);
        lemma_char_count_concat(a.drop_first(), b);
    }
}

/// One more character adds its weight to the count.
pub proof fn lemma_char_count_push(text: Seq<char>, c: char)
    ensures
        char_count(text.push(c)) == char_count(text) + char_weight(c),
{
    lemma_char_count_concat(text, seq![c]);
    assert(text.push(c) =~= text + seq![c]);
    assert(seq![c].drop_first() =~= Seq::<char>::empty());
    assert(char_count(seq![c].drop_first()) == 0);
}

/// A text has at least as many bytes in UTF-8 as it has characters.
pub proof fn lemma_encode_utf8_len(text: Seq<char>)
    ensures
        text.len() <= encode_utf8(text).len(),
    decreases text.len(),
{
    if text.len() > 0 {
        lemma_encode_utf8_len(text.drop_first());
    }
}

/// A text takes at most four bytes for each character in UTF-8, and counts at
/// most two for each.
pub proof fn lemma_colorset_name_bounds(text: Seq<char>)
    ensures
        encode_utf8(text).len() <= 4 * text.len(),
        char_count(text) <= 2 * text.len(),
    decreases text.len(),
{
    if text.len() > 0 {
        lemma_colorset_name_bounds(text.drop_first());
    }
}

/// Reading what a valid name writes gives the name back and leaves what
/// followed it, whatever the Shift_JIS copy holds, as long as its length fits
/// the length field.
pub proof fn lemma_parse_name_block(sjis: Seq<u8>, text: Seq<char>, rest: Seq<u8>)
    requires
        sjis.len() <= u16::MAX,
        valid_colorset_name(text),
    ensures
        parse_colorset_name(name_block(sjis, encode_utf8(text)) + rest) == Ok::<_, DecodeError>(
            (rest, text),
        ),
{
    reveal(parse_colorset_name);
    let utf8 = encode_utf8(text);
    let size = (8 + sjis.len() + utf8.len()) as u32;
    let sjis_len = sjis.len() as u16;
    let utf8_len = utf8.len() as u16;
    let after_utf8_len = utf8 + rest;
    let after_delimiter = le_u16_bytes(utf8_len) + after_utf8_len;
    let after_sjis = le_u32_bytes(0) + after_delimiter;
    let after_sjis_len = sjis + after_sjis;
    let after_size = le_u16_bytes(sjis_len) + after_sjis_len;
    assert(name_block(sjis, utf8) + rest =~= le_u32_bytes(size) + after_size);
    lemma_spec_le_u32(size, after_size);
    lemma_spec_le_u16(sjis_len, after_sjis_len);
    lemma_spec_take(sjis, after_sjis);
    lemma_spec_le_u32(0, after_delimiter);
    lemma_spec_le_u16(utf8_len, after_utf8_len);
    lemma_spec_take(utf8, rest);
    encode_utf8_valid_utf8(text);
    encode_utf8_decode_utf8(text);
}

/// The name of a colour set.
#[derive(Debug)]
pub struct ColorsetName {
    val: String,
}

impl View for ColorsetName {
    type V = Seq<char>;

    closed spec fn view(&self) -> Seq<char> {
        self.val@
    }
}

impl ColorsetName {
    #[verifier::type_invariant]
    spec fn well_formed(&self) -> bool {
        valid_colorset_name(self.val@)
    }

    /// The empty name.
    pub fn new() -> (name: Self)
        ensures
            name@ == Seq::<char>::empty(),
    {
        ColorsetName { val: String::new() }
    }

    /// Says whether `val` could be set as a name, and changes nothing.
    pub fn validate_str(val: &str) -> (r: Result<(), ColorsetNameError>)
        ensures
            r == check_colorset_name(val@),
    {
        if val.as_bytes().len() > 192 {
            return Err(ColorsetNameError::StringOver192Bytes);
        }
        let mut count: usize = 0;
        for c in it: val.chars()
            invariant
                it.seq() == val@,
                count == char_count(val@.take(it.index() as int)),
                count <= 64,
                encode_utf8(val@).len() <= 192,
        {
            proof {
                let i = it.index() as int;
                assert(val@.take(i + 1) =~= val@.take(i).push(c));
                lemma_char_count_push(val@.take(i), c);
                lemma_char_count_concat(val@.take(i + 1), val@.skip(i + 1));
                assert(val@.take(i + 1) + val@.skip(i + 1) =~= val@);
            }
            count = count + match len_utf8(c) {
                4 => 2,
                _ => 1,
            };
            if count > 64 {
                return Err(ColorsetNameError::CharCountExceeded64);
            }
        }
        proof {
            assert(val@.take(val@.len() as int) =~= val@);
        }
        Ok(())
    }

    /// Replaces the name by `val`, where that is valid, and else leaves the
    /// name as it is. A name must take at most 192 bytes in UTF-8 and count at
    /// most 64 characters, a character of four bytes counting as two.
    pub fn set_str(&mut self, val: &str) -> (r: Result<(), ColorsetNameError>)
        ensures
            r == check_colorset_name(val@),
            final(self)@ == if r is Ok {
                val@
            } else {
                old(self)@
            },
    {
        match Self::validate_str(val) {
            Ok(()) => {
                *self = ColorsetName { val: val.to_owned() };
                Ok(())
            },
            Err(e) => Err(e),
        }
    }

    /// The name as text. Every name is valid.
    pub fn as_str(&self) -> (text: &str)
        ensures
            text@ == self@,
            valid_colorset_name(self@),
    {
        proof {
            use_type_invariant(self);
        }
        self.val.as_str()
    }

    /// The Shift_JIS copy of the name, with spaces for what Shift_JIS does not
    /// have: two for a character of four bytes in UTF-8, one for any other.
    pub fn encode_sjis(&self) -> (sjis: Vec<u8>)
        ensures
            sjis@ == sjis_lossy(self@),
            sjis@.len() <= 960,
    {
        proof {
            use_type_invariant(self);
            lemma_encode_utf8_len(self@);
        }
        encode_sjis(self.val.as_str())
    }
}

impl Clone for ColorsetName {
    fn clone(&self) -> (name: Self)
        ensures
            name@ == self@,
    {
        proof {
            use_type_invariant(self);
        }
        ColorsetName { val: self.val.clone() }
    }
}

impl PartialEq for ColorsetName {
    fn eq(&self, other: &Self) -> (r: bool) {
        self.val == other.val
    }
}

impl vstd::std_specs::cmp::PartialEqSpecImpl for ColorsetName {
    open spec fn obeys_eq_spec() -> bool {
        true
    }

    open spec fn eq_spec(&self, other: &Self) -> bool {
        self@ == other@
    }
}

impl ClsSize for ColorsetName {
    open spec fn contents_fit_cls(&self) -> bool {
        true
    }

    open spec fn fits_cls(&self) -> bool {
        true
    }

    open spec fn spec_size_contents_in_cls(&self) -> nat {
        8 + sjis_lossy(self@).len() + encode_utf8(self@).len()
    }

    open spec fn spec_size_in_cls(&self) -> nat {
        4 + 8 + sjis_lossy(self@).len() + encode_utf8(self@).len()
    }

    fn size_in_cls(&self) -> (n: u32)
        ensures
            n <= 1164,
    {
        4 + self.size_contents_in_cls()
    }

    fn size_contents_in_cls(&self) -> (n: u32)
        ensures
            n <= 1160,
    {
        let sjis_buf_size = self.encode_sjis().len() as u32;
        let utf8_buf_size = self.as_str().len() as u32;
        8 + sjis_buf_size + utf8_buf_size
    }
}

impl ExtendBytesMut for ColorsetName {
    open spec fn cls_bytes(&self) -> Seq<u8> {
        colorset_name_bytes(self@)
    }

    open spec fn fits_fields(&self) -> bool {
        true
    }

    proof fn lemma_cls_bytes_len(&self) {
    }

    fn extend_bytes(&self, extended: &mut BytesMut)
        ensures
            valid_colorset_name(self@),
            sjis_lossy(self@).len() <= 960,
    {
        let sjis_buf = self.encode_sjis();
        let sjis_buf_size = sjis_buf.len() as u16;
        let utf8_buf = self.as_str().as_bytes();
        let utf8_buf_size = utf8_buf.len() as u16;
        let bytesize_header: u32 = 8 + sjis_buf_size as u32 + utf8_buf_size as u32;
        put_le_u32(extended, bytesize_header);
        put_le_u16(extended, sjis_buf_size);
        extended.extend_from_slice(sjis_buf.as_slice());
        put_le_u32(extended, 0u32);
        put_le_u16(extended, utf8_buf_size);
        extended.extend_from_slice(utf8_buf);
        proof {
            assert(written(*extended) =~= written(*old(extended)) + colorset_name_bytes(self@));
        }
    }
}

/// Reads the name of a colour set from the front of `input`.
pub fn bytes_colorset_name(input: &[u8]) -> (r: Result<(&[u8], ColorsetName), DecodeError>)
    ensures
        parsed(r) == parse_colorset_name(input@),
{
    proof {
        reveal(parse_colorset_name);
    }
    let (input, _) = le_u32(input)?;
    let (input, sjis_bytes_size) = le_u16(input)?;
    let (input, _) = take(input, sjis_bytes_size as usize)?;
    let (input, _) = le_u32(input)?;
    let (input, utf8_bytes_size) = le_u16(input)?;
    let (input, utf8_bytes) = take(input, utf8_bytes_size as usize)?;
    let colorset_name_str = match str_from_utf8(utf8_bytes) {
        Some(text) => {
            proof {
                encode_utf8_decode_utf8(text@);
            }
            text
        },
        None => {
            return Err(DecodeError::InvalidUtf8);
        },
    };
    let mut colorset_name = ColorsetName::new();
    match colorset_name.set_str(colorset_name_str) {
        Ok(()) => Ok((input, colorset_name)),
        Err(_) => Err(DecodeError::TooLong),
    }
}

impl TryFromBytes for ColorsetName {
    open spec fn spec_try_from_bytes(input: Seq<u8>) -> Result<(Seq<u8>, Seq<char>), DecodeError> {
        parse_colorset_name(input)
    }

    fn try_from_bytes(input: &[u8]) -> (r: Result<(&[u8], ColorsetName), DecodeError>) {
        bytes_colorset_name(input)
    }
}

} // verus!
