//! What this library takes on trust of the standard library's characters and
//! strings, where `vstd` says nothing of a function that it needs.

use vstd::prelude::*;
use vstd::utf8::{encode_utf8, valid_utf8};

verus! {

/// `char::from_u32` gives the character with the scalar value `i`, and `None`
/// where `i` is a surrogate or lies past U+10FFFF.
pub assume_specification[ char::from_u32 ](i: u32) -> (r: Option<char>)
    ensures
        r is Some <==> (i < 0xD800 || 0xE000 <= i <= 0x10FFFF),
        r matches Some(c) ==> c as u32 == i,
;

/// `String::push` appends one character.
pub assume_specification[ String::push ](s: &mut String, ch: char)
    ensures
        final(s)@ == old(s)@.push(ch),
;

/// `core::str::from_utf8` accepts exactly the well-formed UTF-8 sequences, and
/// the text it returns is made of the very bytes it was given.
#[verifier::external_body]
pub(crate) fn str_from_utf8(bytes: &[u8]) -> (r: Option<&str>)
    ensures
        r is Some <==> valid_utf8(bytes@),
        r matches Some(s) ==> encode_utf8(s@) == bytes@,
{
    core::str::from_utf8(bytes).ok()
}

} // verus!
