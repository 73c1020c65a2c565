//! A segment: one colour of the set and, where it has one, its name.

use crate::buffer::written;
use crate::color::{
    bytes_color, color_bytes, lemma_parse_color_bytes, normalized, parse_color, Color, ColorView,
    SerializeMode,
};
use crate::color_name::{
    bytes_color_name, color_name_bytes, lemma_parse_color_name_bytes, parse_color_name,
    utf16_byte_len, valid_color_name, ColorName, ColorNameError,
};
use crate::common::{ClsSize, ExtendBytesMut, TryFromBytes};
use crate::wire::{le_u32, le_u32_bytes, parsed, put_le_u32, spec_le_u32, DecodeError};
use bytes::BytesMut;
use vstd::prelude::*;

verus! {

/// A segment as a value: its colour and the text of its name.
pub struct SegmentView {
    pub color: ColorView,
    pub name: Option<Seq<char>>,
}

/// The text of a name that may be missing.
pub open spec fn name_view(name: Option<ColorName>) -> Option<Seq<char>> {
    match name {
        Some(n) => Some(n@),
        None => None,
    }
}

/// The serialize mode of the colour of a segment.
pub open spec fn serialize_mode_of(segment: ColorSegment) -> SerializeMode {
    segment.spec_color().spec_serialize_mode()
}

/// True of a segment whose name, if it has one, is a valid name.
pub open spec fn valid_segment(s: SegmentView) -> bool {
    s.name matches Some(text) ==> valid_color_name(text)
}

/// The segment that comes back when `s` is written and read again: the same
/// but for the red, green and blue of a transparent colour.
pub open spec fn normalized_segment(s: SegmentView) -> SegmentView {
    SegmentView { color: normalized(s.color), name: s.name }
}

/// The number of bytes of a segment behind its size header: the colour, the
/// name flag and the name.
pub open spec fn segment_contents_size(s: SegmentView) -> nat {
    4 + 4 + match s.name {
        Some(text) => 2 + utf16_byte_len(text),
        None => 0,
    }
}

/// The number of bytes of a segment with its size header.
pub open spec fn segment_size(s: SegmentView) -> nat {
    4 + segment_contents_size(s)
}

/// A segment in a file: the size of what follows as a `u32`, the colour, and
/// then either the flag 1 and the name, or the flag 0.
pub open spec fn segment_bytes(s: SegmentView) -> Seq<u8> {
    le_u32_bytes(segment_contents_size(s) as u32) + color_bytes(s.color) + match s.name {
        Some(text) => le_u32_bytes(1) + color_name_bytes(text),
        None => le_u32_bytes(0),
    }
}

/// Reading a segment: the size header, which is passed over, the colour, the
/// flag, and a name where the flag is 1.
#[verifier::opaque]
pub open spec fn parse_segment(input: Seq<u8>) -> Result<(Seq<u8>, SegmentView), DecodeError> {
    match spec_le_u32(input) {
        Err(e) => Err(e),
        Ok((after_size, _)) => match parse_color(after_size) {
            Err(e) => Err(e),
            Ok((after_color, color)) => match spec_le_u32(after_color) {
                Err(e) => Err(e),
                Ok((after_flag, flag)) => if flag == 1 {
                    match parse_color_name(after_flag) {
                        Err(e) => Err(e),
                        Ok((rest, text)) => Ok((rest, SegmentView { color, name: Some(text) })),
                    }
                } else {
                    Ok((after_flag, SegmentView { color, name: None }))
                },
            },
        },
    }
}

/// A segment takes as many bytes as its size says, and at least twelve.
pub proof fn lemma_segment_bytes_len(s: SegmentView)
    ensures
        segment_bytes(s).len() == segment_size(s),
        segment_size(s) >= 12,
{
}

/// Reading a segment takes at least twelve bytes off the input.
pub proof fn lemma_parse_segment_consumes(input: Seq<u8>)
    ensures
        parse_segment(input) matches Ok((rest, _)) ==> rest.len() + 12 <= input.len(),
{
    reveal(parse_segment);
}

/// Fewer than twelve bytes hold no segment.
pub proof fn lemma_parse_segment_short(input: Seq<u8>)
    requires
        input.len() < 12,
    ensures
        parse_segment(input) == Err::<(Seq<u8>, SegmentView), _>(DecodeError::TruncatedInput),
{
    reveal(parse_segment);
}

/// A segment that was read is valid.
pub proof fn lemma_parse_segment_valid(input: Seq<u8>)
    ensures
        parse_segment(input) matches Ok((_, segment)) ==> valid_segment(segment),
{
    reveal(parse_segment);
}

/// Reading what a valid segment writes gives the segment back, black where
/// its colour is transparent, and leaves what followed it.
pub proof fn lemma_parse_segment_bytes(s: SegmentView, rest: Seq<u8>)
    requires
        valid_segment(s),
    ensures
        parse_segment(segment_bytes(s) + rest) == Ok::<_, DecodeError>(
            (rest, normalized_segment(s)),
        ),
{
    reveal(parse_segment);
    let input = segment_bytes(s) + rest;
    let tail = match s.name {
        Some(text) => le_u32_bytes(1) + color_name_bytes(text),
        None => le_u32_bytes(0),
    };
    assert(input.skip(4) =~= color_bytes(s.color) + (tail + rest));
    lemma_parse_color_bytes(s.color, tail + rest);
    match s.name {
        Some(text) => {
            assert((tail + rest).skip(4) =~= color_name_bytes(text) + rest);
            assert(spec_le_u32(tail + rest) == Ok::<_, DecodeError>(
                (color_name_bytes(text) + rest, 1u32),
            ));
            lemma_parse_color_name_bytes(text, rest);
        },
        None => {
            assert((tail + rest).skip(4) =~= rest);
            assert(spec_le_u32(tail + rest) == Ok::<_, DecodeError>((rest, 0u32)));
        },
    }
}

/// One colour of a set with its name, if it has one.
#[derive(Debug)]
pub struct ColorSegment {
    color: Color,
    color_name: Option<ColorName>,
}

impl View for ColorSegment {
    type V = SegmentView;

    open spec fn view(&self) -> SegmentView {
        SegmentView { color: self.spec_color()@, name: name_view(self.spec_color_name()) }
    }
}

impl ColorSegment {
    /// The colour of the segment.
    pub closed spec fn spec_color(&self) -> Color {
        self.color
    }

    /// The name of the segment.
    pub closed spec fn spec_color_name(&self) -> Option<ColorName> {
        self.color_name
    }

    /// The segment of the given colour and name.
    pub fn new(color: Color, color_name: Option<ColorName>) -> (segment: Self)
        ensures
            segment.spec_color() == color,
            segment.spec_color_name() == color_name,
    {
        ColorSegment { color, color_name }
    }

    /// The segment of the given colour and name, where the name is valid.
    pub fn with_val(
        red: u8,
        green: u8,
        blue: u8,
        transparency: bool,
        color_name: Option<&str>,
    ) -> (r: Result<Self, ColorNameError>)
        ensures
            r is Ok <==> (color_name matches Some(text) ==> valid_color_name(text@)),
            r matches Ok(segment) ==> {
                &&& segment@.color == (ColorView { red, green, blue, transparent: transparency })
                &&& serialize_mode_of(segment) == SerializeMode::Struct
                &&& segment@.name == match color_name {
                    Some(text) => Some(text@),
                    None => None,
                }
            },
    {
        let color = Color::new(red, green, blue, transparency);
        match color_name {
            None => Ok(ColorSegment::new(color, None)),
            Some(val) => match ColorName::with_str(val) {
                Ok(cn) => Ok(ColorSegment::new(color, Some(cn))),
                Err(e) => Err(e),
            },
        }
    }

    /// The colour, to be read or changed in place.
    pub fn get_color_mut_ref(&mut self) -> (color: &mut Color)
        ensures
            *color == old(self).spec_color(),
            final(self).spec_color() == *final(color),
            final(self).spec_color_name() == old(self).spec_color_name(),
    {
        &mut self.color
    }

    /// The name, to be read, changed in place, set or taken away.
    pub fn get_color_name_mut_ref(&mut self) -> (color_name: &mut Option<ColorName>)
        ensures
            *color_name == old(self).spec_color_name(),
            final(self).spec_color_name() == *final(color_name),
            final(self).spec_color() == old(self).spec_color(),
    {
        &mut self.color_name
    }

    /// The colour.
    pub fn get_color(&self) -> (color: &Color)
        ensures
            *color == self.spec_color(),
    {
        &self.color
    }

    /// The name, if the segment has one.
    pub fn get_color_name(&self) -> (color_name: &Option<ColorName>)
        ensures
            *color_name == self.spec_color_name(),
    {
        &self.color_name
    }
}

impl Clone for ColorSegment {
    fn clone(&self) -> (segment: Self)
        ensures
            segment@ == self@,
            segment.spec_color() == self.spec_color(),
    {
        let color_name = match &self.color_name {
            Some(name) => Some(name.clone()),
            None => None,
        };
        ColorSegment { color: self.color, color_name }
    }
}

impl PartialEq for ColorSegment {
    fn eq(&self, other: &Self) -> (r: bool) {
        if self.color == other.color {
            match (&self.color_name, &other.color_name) {
                (None, None) => true,
                (Some(s_cn), Some(ot_cn)) => s_cn == ot_cn,
                _ => false,
            }
        } else {
            false
        }
    }
}

impl vstd::std_specs::cmp::PartialEqSpecImpl for ColorSegment {
    open spec fn obeys_eq_spec() -> bool {
        true
    }

    open spec fn eq_spec(&self, other: &Self) -> bool {
        self.spec_color() == other.spec_color() && self@.name == other@.name
    }
}

impl ClsSize for ColorSegment {
    open spec fn contents_fit_cls(&self) -> bool {
        true
    }

    open spec fn fits_cls(&self) -> bool {
        true
    }

    open spec fn spec_size_contents_in_cls(&self) -> nat {
        segment_contents_size(self@)
    }

    open spec fn spec_size_in_cls(&self) -> nat {
        segment_size(self@)
    }

    fn size_in_cls(&self) -> (n: u32)
        ensures
            12 <= n <= 142,
    {
        4 + self.size_contents_in_cls()
    }

    fn size_contents_in_cls(&self) -> (n: u32)
        ensures
            8 <= n <= 138,
    {
        let color_size = self.color.size_in_cls();
        let color_name_exists_flag_size = 4u32;
        let color_name_size = if let Some(color_name) = &self.color_name {
            color_name.size_in_cls()
        } else {
            0
        };
        color_size + color_name_exists_flag_size + color_name_size
    }
}

impl ExtendBytesMut for ColorSegment {
    open spec fn cls_bytes(&self) -> Seq<u8> {
        segment_bytes(self@)
    }

    open spec fn fits_fields(&self) -> bool {
        true
    }

    proof fn lemma_cls_bytes_len(&self) {
    }

    fn extend_bytes(&self, extended: &mut BytesMut)
        ensures
            valid_segment(self@),
    {
        put_le_u32(extended, self.size_contents_in_cls());
        self.color.extend_bytes(extended);
        if let Some(color_name) = &self.color_name {
            put_le_u32(extended, 1u32);
            color_name.extend_bytes(extended);
        } else {
            put_le_u32(extended, 0u32);
        }
        proof {
            assert(written(*extended) =~= written(*old(extended)) + segment_bytes(self@));
        }
    }
}

/// Reads a segment from the front of `input`.
pub fn bytes_color_segment(input: &[u8]) -> (r: Result<(&[u8], ColorSegment), DecodeError>)
    ensures
        parsed(r) == parse_segment(input@),
        r matches Ok((_, segment)) ==> serialize_mode_of(segment) == SerializeMode::Struct,
{
    proof {
        reveal(parse_segment);
    }
    let (input, _) = le_u32(input)?;
    let (input, color) = bytes_color(input)?;
    let (input, exists_color_name) = le_u32(input)?;
    if exists_color_name == 1 {
        let (input, color_name) = bytes_color_name(input)?;
        Ok((input, ColorSegment { color, color_name: Some(color_name) }))
    } else {
        Ok((input, ColorSegment { color, color_name: None }))
    }
}

impl TryFromBytes for ColorSegment {
    open spec fn spec_try_from_bytes(input: Seq<u8>) -> Result<
        (Seq<u8>, SegmentView),
        DecodeError,
    > {
        parse_segment(input)
    }

    fn try_from_bytes(input: &[u8]) -> (r: Result<(&[u8], ColorSegment), DecodeError>)
        ensures
            r matches Ok((_, segment)) ==> serialize_mode_of(segment) == SerializeMode::Struct,
    {
        bytes_color_segment(input)
    }
}

} // verus!
