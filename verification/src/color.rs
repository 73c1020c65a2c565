//! A colour: red, green and blue, and whether it is transparent. A transparent
//! colour is written as four zero bytes, so its red, green and blue do not
//! reach the file and read back as black.

use crate::buffer::written;
use crate::common::{ClsSize, ExtendBytesMut, TryFromBytes};
use crate::wire::{parsed, DecodeError};
use bytes::BytesMut;
use vstd::prelude::*;
use vstd::utf8::{encode_utf8, is_ascii_chars, is_ascii_chars_encode_utf8};

verus! {

/// The form in which a colour is handed to a serializer.
#[derive(Debug, PartialEq, Eq, Clone, Copy, Structural)]
pub enum SerializeMode {
    /// Red, green, blue and transparency under their names.
    Struct,
    /// Red, green and blue in a sequence.
    Sequence,
    /// The hex colour as a text.
    Hex,
    /// The hex colour as a text, behind a number sign.
    HexWithNumberSign,
}

/// Why a text is no hex colour.
#[derive(Debug, PartialEq, Eq, Clone, Copy, Structural)]
pub enum ParseHexColorError {
    /// The text has not the shape `#RRGGBB`, `RRGGBB`, `#RGB` or `RGB`.
    InvalidFormat,
    /// A digit is none of `0` to `9`, `a` to `f`, `A` to `F`.
    InvalidDigit,
}

impl ParseHexColorError {
    /// The error in words.
    pub fn message(&self) -> (text: &'static str)
        ensures
            text@ == match self {
                ParseHexColorError::InvalidFormat => "Invalid Hex Color Str."@,
                ParseHexColorError::InvalidDigit => "invalid digit found in string"@,
            },
    {
        match self {
            ParseHexColorError::InvalidFormat => "Invalid Hex Color Str.",
            ParseHexColorError::InvalidDigit => "invalid digit found in string",
        }
    }
}

/// A colour as a value: what a file can hold of it.
pub struct ColorView {
    pub red: u8,
    pub green: u8,
    pub blue: u8,
    pub transparent: bool,
}

/// What a serializer is handed for a colour.
#[derive(Debug)]
pub enum SerializedColor {
    /// The four fields of the colour under their names.
    Fields { red: u8, green: u8, blue: u8, transparency: bool },
    /// A sequence of numbers.
    Items(Vec<u8>),
    /// A text.
    Text(String),
}

/// RGB and transparency.
#[derive(Debug, PartialEq, Eq, Clone, Copy, Structural)]
pub struct Color {
    red: u8,
    green: u8,
    blue: u8,
    transparency: bool,
    serialize_mode: SerializeMode,
}

impl View for Color {
    type V = ColorView;

    closed spec fn view(&self) -> ColorView {
        ColorView {
            red: self.red,
            green: self.green,
            blue: self.blue,
            transparent: self.transparency,
        }
    }
}

/// The colour that comes back when `c` is written and read again.
pub open spec fn normalized(c: ColorView) -> ColorView {
    if c.transparent {
        ColorView { red: 0, green: 0, blue: 0, transparent: true }
    } else {
        c
    }
}

/// The four bytes of a colour in a file: zeros where it is transparent, else
/// red, green, blue and `0xFF`.
pub open spec fn color_bytes(c: ColorView) -> Seq<u8> {
    if c.transparent {
        seq![0u8, 0u8, 0u8, 0u8]
    } else {
        seq![c.red, c.green, c.blue, 0xFFu8]
    }
}

/// Reading a colour: four bytes, the last of which says by being zero that
/// the colour is transparent.
pub open spec fn parse_color(input: Seq<u8>) -> Result<(Seq<u8>, ColorView), DecodeError> {
    if input.len() < 4 {
        Err(DecodeError::TruncatedInput)
    } else if input[3] == 0 {
        Ok((input.skip(4), ColorView { red: 0, green: 0, blue: 0, transparent: true }))
    } else {
        Ok(
            (
                input.skip(4),
                ColorView { red: input[0], green: input[1], blue: input[2], transparent: false },
            ),
        )
    }
}

/// Reading what a colour writes gives the colour back, black where it is
/// transparent, and leaves what followed it.
pub proof fn lemma_parse_color_bytes(c: ColorView, rest: Seq<u8>)
    ensures
        parse_color(color_bytes(c) + rest) == Ok::<_, DecodeError>((rest, normalized(c))),
{
    assert((color_bytes(c) + rest).skip(4) =~= rest);
}

/// The value of a hex digit given as a byte, `None` where the byte is none.
pub open spec fn hex_digit_value(b: u8) -> Option<u8> {
    if 0x30 <= b <= 0x39 {
        Some((b - 0x30) as u8)
    } else if 0x61 <= b <= 0x66 {
        Some((b - 0x61 + 10) as u8)
    } else if 0x41 <= b <= 0x46 {
        Some((b - 0x41 + 10) as u8)
    } else {
        None
    }
}

/// The digits of a hex colour: the text itself where it has three or six
/// bytes, what follows the number sign where it has four or seven.
pub open spec fn hex_color_digits(text: Seq<u8>) -> Option<Seq<u8>> {
    if text.len() == 3 || text.len() == 6 {
        Some(text)
    } else if (text.len() == 4 || text.len() == 7) && text[0] == 0x23 {
        Some(text.skip(1))
    } else {
        None
    }
}

/// The byte that two hex digits spell.
pub open spec fn hex_pair_value(high: u8, low: u8) -> u8
    recommends
        hex_digit_value(high) is Some,
        hex_digit_value(low) is Some,
{
    (16 * hex_digit_value(high).unwrap() + hex_digit_value(low).unwrap()) as u8
}

/// Red, green and blue of a hex colour given by the bytes of its text. In the
/// short forms each digit counts twice.
pub open spec fn parse_hex_color_spec(text: Seq<u8>) -> Result<(u8, u8, u8), ParseHexColorError> {
    match hex_color_digits(text) {
        None => Err(ParseHexColorError::InvalidFormat),
        Some(d) => {
            if exists|i: int| 0 <= i < d.len() && hex_digit_value(d[i]) is None {
                Err(ParseHexColorError::InvalidDigit)
            } else if d.len() == 3 {
                Ok(
                    (
                        hex_pair_value(d[0], d[0]),
                        hex_pair_value(d[1], d[1]),
                        hex_pair_value(d[2], d[2]),
                    ),
                )
            } else {
                Ok(
                    (
                        hex_pair_value(d[0], d[1]),
                        hex_pair_value(d[2], d[3]),
                        hex_pair_value(d[4], d[5]),
                    ),
                )
            }
        },
    }
}

/// The colour that a hex colour text and a transparency make.
pub open spec fn hex_color_view(text: Seq<u8>, transparent: bool) -> Result<
    ColorView,
    ParseHexColorError,
> {
    match parse_hex_color_spec(text) {
        Ok((red, green, blue)) => Ok(ColorView { red, green, blue, transparent }),
        Err(e) => Err(e),
    }
}

/// The upper-case hex digit for a value below sixteen.
pub open spec fn hex_digit_char(n: u8) -> char
    recommends
        n < 16,
{
    if n < 10 {
        (0x30 + n) as char
    } else {
        (0x41 + n - 10) as char
    }
}

/// The two upper-case hex digits of a byte.
pub open spec fn hex_pair(b: u8) -> Seq<char> {
    seq![hex_digit_char(b / 16), hex_digit_char(b % 16)]
}

/// A colour as hex text, `RRGGBB`, behind a number sign where one is asked for.
pub open spec fn hex_color_text(c: ColorView, number_sign: bool) -> Seq<char> {
    let digits = hex_pair(c.red) + hex_pair(c.green) + hex_pair(c.blue);
    if number_sign {
        seq!['#'] + digits
    } else {
        digits
    }
}

/// The hex colour of a colour, with or without the number sign, parses to its
/// red, green and blue.
pub proof fn lemma_parse_hex_color_text(c: ColorView, number_sign: bool)
    ensures
        parse_hex_color_spec(encode_utf8(hex_color_text(c, number_sign))) == Ok::<
            _,
            ParseHexColorError,
        >((c.red, c.green, c.blue)),
{
    let text = hex_color_text(c, number_sign);
    let bytes = encode_utf8(text);
    assert(is_ascii_chars(text)) by {
        assert forall|i: int| 0 <= i < text.len() implies (0 <= #[trigger] text[i] as nat) && (
        text[i] as nat) < 128 by {}
    }
    is_ascii_chars_encode_utf8(text);
    assert(bytes.len() == text.len());
    let digits = hex_color_digits(bytes).unwrap();
    assert(digits =~= Seq::new(6, |i: int| hex_color_text(c, false)[i] as u8));
    assert forall|i: int| 0 <= i < digits.len() implies hex_digit_value(#[trigger] digits[i])
        is Some by {}
    assert(hex_pair_value(digits[0], digits[1]) == c.red);
    assert(hex_pair_value(digits[2], digits[3]) == c.green);
    assert(hex_pair_value(digits[4], digits[5]) == c.blue);
}

/// The value of one hex digit.
fn hex_digit(b: u8) -> (r: Option<u8>)
    ensures
        r == hex_digit_value(b),
{
    if 0x30 <= b && b <= 0x39 {
        Some(b - 0x30)
    } else if 0x61 <= b && b <= 0x66 {
        Some(b - 0x61 + 10)
    } else if 0x41 <= b && b <= 0x46 {
        Some(b - 0x41 + 10)
    } else {
        None
    }
}

/// The byte that the digits `high` and `low` spell.
fn hex_byte(high: u8, low: u8) -> (r: Option<u8>)
    ensures
        r is Some <==> hex_digit_value(high) is Some && hex_digit_value(low) is Some,
        r matches Some(v) ==> v == hex_pair_value(high, low),
{
    match (hex_digit(high), hex_digit(low)) {
        (Some(h), Some(l)) => Some(16 * h + l),
        _ => None,
    }
}

/// Parses a hex colour text into red, green and blue. `#FFFFFF`, `FFFFFF`,
/// `#FFF` and `FFF` are the valid forms.
pub fn parse_hex_color(hex_color: &str) -> (r: Result<(u8, u8, u8), ParseHexColorError>)
    ensures
        r == parse_hex_color_spec(encode_utf8(hex_color@)),
{
    let text = hex_color.as_bytes();
    let len = text.len();
    let digits = if len == 3 || len == 6 {
        text
    } else if (len == 4 || len == 7) && text[0] == 0x23 {
        text.split_at(1).1
    } else {
        return Err(ParseHexColorError::InvalidFormat);
    };
    let d = digits;
    let rgb = if d.len() == 3 {
        (hex_byte(d[0], d[0]), hex_byte(d[1], d[1]), hex_byte(d[2], d[2]))
    } else {
        (hex_byte(d[0], d[1]), hex_byte(d[2], d[3]), hex_byte(d[4], d[5]))
    };
    match rgb {
        (Some(red), Some(green), Some(blue)) => Ok((red, green, blue)),
        _ => Err(ParseHexColorError::InvalidDigit),
    }
}

/// The upper-case hex digit for `n`.
fn hex_char(n: u8) -> (c: char)
    requires
        n < 16,
    ensures
        c == hex_digit_char(n),
{
    if n < 10 {
        (0x30 + n) as char
    } else {
        (0x41 + n - 10) as char
    }
}

/// Appends the two hex digits of `b` to `text`.
fn push_hex_pair(text: &mut String, b: u8)
    ensures
        final(text)@ == old(text)@ + hex_pair(b),
{
    text.push(hex_char(b / 16));
    text.push(hex_char(b % 16));
    proof {
        assert(final(text)@ =~= old(text)@ + hex_pair(b));
    }
}

impl Color {
    /// The serialize mode of the colour, which is no part of its value.
    pub closed spec fn spec_serialize_mode(&self) -> SerializeMode {
        self.serialize_mode
    }

    /// A colour of the given red, green, blue and transparency.
    pub fn new(red: u8, green: u8, blue: u8, transparency: bool) -> (c: Color)
        ensures
            c@ == (ColorView { red, green, blue, transparent: transparency }),
            c.spec_serialize_mode() == SerializeMode::Struct,
    {
        Color { red, green, blue, transparency, serialize_mode: SerializeMode::Struct }
    }

    /// Sets red, green and blue.
    pub fn set_rgb(&mut self, red: u8, green: u8, blue: u8)
        ensures
            final(self)@ == (ColorView { red, green, blue, transparent: old(self)@.transparent }),
            final(self).spec_serialize_mode() == old(self).spec_serialize_mode(),
    {
        self.red = red;
        self.green = green;
        self.blue = blue;
    }

    /// Red, green and blue.
    pub fn get_rgb(&self) -> (rgb: (u8, u8, u8))
        ensures
            rgb == (self@.red, self@.green, self@.blue),
    {
        (self.red, self.green, self.blue)
    }

    /// Makes the colour transparent or opaque. Its red, green and blue stay.
    pub fn set_transparency(&mut self, transparency: bool)
        ensures
            final(self)@ == (ColorView { transparent: transparency, ..old(self)@ }),
            final(self).spec_serialize_mode() == old(self).spec_serialize_mode(),
    {
        self.transparency = transparency
    }

    /// Whether the colour is transparent.
    pub fn get_transparency(&self) -> (transparency: bool)
        ensures
            transparency == self@.transparent,
    {
        self.transparency
    }

    /// The colour that the hex colour `hex_color` names, with the given
    /// transparency.
    pub fn new_with_hex_color(hex_color: &str, transparency: bool) -> (r: Result<
        Color,
        ParseHexColorError,
    >)
        ensures
            match r {
                Ok(c) => hex_color_view(encode_utf8(hex_color@), transparency) == Ok::<
                    _,
                    ParseHexColorError,
                >(c@),
                Err(e) => hex_color_view(encode_utf8(hex_color@), transparency) == Err::<
                    ColorView,
                    _,
                >(e),
            },
            r matches Ok(c) ==> c.spec_serialize_mode() == SerializeMode::Struct,
    {
        match parse_hex_color(hex_color) {
            Ok((red, green, blue)) => Ok(Color::new(red, green, blue, transparency)),
            Err(e) => Err(e),
        }
    }

    /// Sets red, green and blue to those that the hex colour `hex_color`
    /// names. Where the text is no hex colour, the colour stays as it is.
    pub fn set_rgb_with_hex_color(&mut self, hex_color: &str) -> (r: Result<
        (),
        ParseHexColorError,
    >)
        ensures
            match r {
                Ok(()) => hex_color_view(encode_utf8(hex_color@), old(self)@.transparent) == Ok::<
                    _,
                    ParseHexColorError,
                >(final(self)@),
                Err(e) => hex_color_view(encode_utf8(hex_color@), old(self)@.transparent) == Err::<
                    ColorView,
                    _,
                >(e) && final(self)@ == old(self)@,
            },
            final(self).spec_serialize_mode() == old(self).spec_serialize_mode(),
    {
        match parse_hex_color(hex_color) {
            Ok((red, green, blue)) => {
                self.set_rgb(red, green, blue);
                Ok(())
            },
            Err(e) => Err(e),
        }
    }

    /// The colour as a hex colour, `RRGGBB` in upper case, with a number sign
    /// in front where `number_sign` is set.
    pub fn get_hex_color(&self, number_sign: bool) -> (text: String)
        ensures
            text@ == hex_color_text(self@, number_sign),
    {
        let mut text = String::new();
        if number_sign {
            text.push('#');
        }
        push_hex_pair(&mut text, self.red);
        push_hex_pair(&mut text, self.green);
        push_hex_pair(&mut text, self.blue);
        proof {
            assert(text@ =~= hex_color_text(self@, number_sign));
        }
        text
    }

    /// Has the colour serialized as its four fields.
    pub fn set_serialize_mode_struct(&mut self)
        ensures
            final(self)@ == old(self)@,
            final(self).spec_serialize_mode() == SerializeMode::Struct,
    {
        self.serialize_mode = SerializeMode::Struct;
    }

    /// Has the colour serialized as the sequence of red, green and blue.
    pub fn set_serialize_mode_seq(&mut self)
        ensures
            final(self)@ == old(self)@,
            final(self).spec_serialize_mode() == SerializeMode::Sequence,
    {
        self.serialize_mode = SerializeMode::Sequence;
    }

    /// Has the colour serialized as a hex colour without a number sign.
    pub fn set_serialize_mode_hex(&mut self)
        ensures
            final(self)@ == old(self)@,
            final(self).spec_serialize_mode() == SerializeMode::Hex,
    {
        self.serialize_mode = SerializeMode::Hex;
    }

    /// Has the colour serialized as a hex colour with a number sign.
    pub fn set_serialize_mode_hex_with_number_sign(&mut self)
        ensures
            final(self)@ == old(self)@,
            final(self).spec_serialize_mode() == SerializeMode::HexWithNumberSign,
    {
        self.serialize_mode = SerializeMode::HexWithNumberSign;
    }

    /// The form in which the colour is serialized.
    pub fn get_serialize_mode(&self) -> (mode: &SerializeMode)
        ensures
            *mode == self.spec_serialize_mode(),
    {
        &self.serialize_mode
    }

    /// What a serializer is handed for the colour in its serialize mode: the
    /// four fields; or red, green and blue as a sequence; or the hex colour as
    /// a text, with or without the number sign. A transparent colour gives an
    /// empty sequence and an empty text.
    pub fn serialized(&self) -> (r: SerializedColor)
        ensures
            match r {
                SerializedColor::Fields { red, green, blue, transparency } => {
                    &&& self.spec_serialize_mode() == SerializeMode::Struct
                    &&& self@ == (ColorView { red, green, blue, transparent: transparency })
                },
                SerializedColor::Items(items) => {
                    &&& self.spec_serialize_mode() == SerializeMode::Sequence
                    &&& items@ == if self@.transparent {
                        Seq::<u8>::empty()
                    } else {
                        seq![self@.red, self@.green, self@.blue]
                    }
                },
                SerializedColor::Text(text) => {
                    &&& self.spec_serialize_mode() == SerializeMode::Hex
                        || self.spec_serialize_mode() == SerializeMode::HexWithNumberSign
                    &&& text@ == if self@.transparent {
                        Seq::<char>::empty()
                    } else {
                        hex_color_text(
                            self@,
                            self.spec_serialize_mode() == SerializeMode::HexWithNumberSign,
                        )
                    }
                },
            },
    {
        match self.serialize_mode {
            SerializeMode::Sequence => {
                let mut items: Vec<u8> = Vec::new();
                if !self.transparency {
                    items.push(self.red);
                    items.push(self.green);
                    items.push(self.blue);
                }
                SerializedColor::Items(items)
            },
            SerializeMode::Hex => {
                if self.transparency {
                    SerializedColor::Text(String::new())
                } else {
                    SerializedColor::Text(self.get_hex_color(false))
                }
            },
            SerializeMode::HexWithNumberSign => {
                if self.transparency {
                    SerializedColor::Text(String::new())
                } else {
                    SerializedColor::Text(self.get_hex_color(true))
                }
            },
            SerializeMode::Struct => SerializedColor::Fields {
                red: self.red,
                green: self.green,
                blue: self.blue,
                transparency: self.transparency,
            },
        }
    }
}

impl ClsSize for Color {
    open spec fn contents_fit_cls(&self) -> bool {
        true
    }

    open spec fn fits_cls(&self) -> bool {
        true
    }

    open spec fn spec_size_contents_in_cls(&self) -> nat {
        4
    }

    open spec fn spec_size_in_cls(&self) -> nat {
        4
    }

    fn size_contents_in_cls(&self) -> (n: u32) {
        4
    }

    fn size_in_cls(&self) -> (n: u32) {
        self.size_contents_in_cls()
    }
}

impl ExtendBytesMut for Color {
    open spec fn cls_bytes(&self) -> Seq<u8> {
        color_bytes(self@)
    }

    open spec fn fits_fields(&self) -> bool {
        true
    }

    proof fn lemma_cls_bytes_len(&self) {
    }

    fn extend_bytes(&self, extended: &mut BytesMut) {
        if self.transparency {
            extended.extend_from_slice(&[0, 0, 0, 0]);
        } else {
            extended.extend_from_slice(&[self.red, self.green, self.blue, 0xFF]);
        }
    }
}

/// Reads a colour from the front of `input`.
pub fn bytes_color(input: &[u8]) -> (r: Result<(&[u8], Color), DecodeError>)
    ensures
        parsed(r) == parse_color(input@),
        r matches Ok((_, c)) ==> c.spec_serialize_mode() == SerializeMode::Struct,
{
    if input.len() < 4 {
        return Err(DecodeError::TruncatedInput);
    }
    let (head, rest) = input.split_at(4);
    if head[3] == 0 {
        Ok((rest, Color::new(0, 0, 0, true)))
    } else {
        Ok((rest, Color::new(head[0], head[1], head[2], false)))
    }
}

impl TryFromBytes for Color {
    open spec fn spec_try_from_bytes(input: Seq<u8>) -> Result<(Seq<u8>, ColorView), DecodeError> {
        parse_color(input)
    }

    fn try_from_bytes(input: &[u8]) -> (r: Result<(&[u8], Color), DecodeError>)
        ensures
            r matches Ok((_, c)) ==> c.spec_serialize_mode() == SerializeMode::Struct,
    {
        bytes_color(input)
    }
}

} // verus!
