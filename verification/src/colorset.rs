//! The colour set: a name and a list of segments. In a file it stands behind
//! a header of six bytes, and a reserved field of four bytes parts the name
//! from the segments.

use crate::buffer::{frozen, written};
use crate::color::{
    parse_hex_color, parse_hex_color_spec, Color, ColorView, ParseHexColorError, SerializeMode,
};
use crate::color_name::{valid_color_name, ColorName, ColorNameError};
use crate::color_segment::{lemma_parse_segment_short, serialize_mode_of, ColorSegment, SegmentView};
use crate::color_segments::{
    all_serialized_as_struct, default_segment, lemma_normalized_segments_idempotent,
    lemma_parse_segments_bytes, lemma_parse_segments_valid, normalized_segments, parse_segments,
    segment_views, segments_bytes, segments_contents_size, valid_segments, ColorSegments,
    ColorSegmentsError,
};
use crate::colorset_name::{
    check_colorset_name, lemma_colorset_name_bounds, lemma_parse_name_block, name_block,
    parse_colorset_name, valid_colorset_name, ColorsetName, ColorsetNameError,
};
use crate::common::{ClsSize, ExtendBytesMut, TryFromBytes};
use crate::sjis::sjis_lossy;
use crate::wire::{
    le_u32, le_u32_bytes, lemma_spec_le_u32, lemma_spec_take, put_le_u32, spec_le_u32, spec_take,
    take, DecodeError,
};
use bytes::{Bytes, BytesMut};
use vstd::prelude::*;
use vstd::utf8::encode_utf8;

verus! {

/// A colour set as a value: the text of its name and its segments.
pub struct ColorsetView {
    pub name: Seq<char>,
    pub segments: Seq<SegmentView>,
}

/// True of a colour set whose name and segments are valid.
pub open spec fn valid_colorset(c: ColorsetView) -> bool {
    valid_colorset_name(c.name) && valid_segments(c.segments)
}

/// The colour set that comes back when `c` is written and read again: the
/// same but for the red, green and blue of its transparent colours.
pub open spec fn normalized_colorset(c: ColorsetView) -> ColorsetView {
    ColorsetView { name: c.name, segments: normalized_segments(c.segments) }
}

/// The six bytes that every file starts with.
pub open spec fn cls_header() -> Seq<u8> {
    seq![0x53u8, 0x4Cu8, 0x43u8, 0x43u8, 0x00u8, 0x01u8]
}

/// A colour set in a file, given the Shift_JIS copy of its name: the header,
/// the name, the reserved field, which holds 4, and the segments.
pub open spec fn colorset_block(sjis: Seq<u8>, c: ColorsetView) -> Seq<u8> {
    cls_header() + name_block(sjis, encode_utf8(c.name)) + le_u32_bytes(4) + segments_bytes(
        c.segments,
    )
}

/// A colour set in a file.
pub open spec fn colorset_bytes(c: ColorsetView) -> Seq<u8> {
    colorset_block(sjis_lossy(c.name), c)
}

/// The number of bytes of a colour set in a file.
pub open spec fn colorset_size(c: ColorsetView) -> nat {
    6 + (4 + 8 + sjis_lossy(c.name).len() + encode_utf8(c.name).len()) + 4 + (8
        + segments_contents_size(c.segments))
}

/// Reading a colour set: six bytes of header, whatever they hold, the name,
/// four bytes of reserved field, whatever they hold, and the segments.
pub open spec fn parse_colorset(input: Seq<u8>) -> Result<(Seq<u8>, ColorsetView), DecodeError> {
    match spec_take(input, 6) {
        Err(e) => Err(e),
        Ok((after_header, _)) => match parse_colorset_name(after_header) {
            Err(e) => Err(e),
            Ok((after_name, name)) => match spec_le_u32(after_name) {
                Err(e) => Err(e),
                Ok((after_reserved, _)) => match parse_segments(after_reserved) {
                    Err(e) => Err(e),
                    Ok((rest, segments)) => Ok((rest, ColorsetView { name, segments })),
                },
            },
        },
    }
}

/// Writing a colour set and reading it again gives the colour set back, but
/// for the red, green and blue of its transparent colours, which come back as
/// zero. This holds of every valid colour set with at least one segment whose
/// segments fit the size field, whatever the Shift_JIS copy of its name holds,
/// as long as the length of the copy fits its length field.
pub proof fn lemma_parse_colorset_block(sjis: Seq<u8>, c: ColorsetView)
    requires
        valid_colorset(c),
        c.segments.len() > 0,
        segments_contents_size(c.segments) <= u32::MAX,
        sjis.len() <= u16::MAX,
    ensures
        parse_colorset(colorset_block(sjis, c)) == Ok::<_, DecodeError>(
            (Seq::<u8>::empty(), normalized_colorset(c)),
        ),
{
    let empty = Seq::<u8>::empty();
    let segments = segments_bytes(c.segments);
    let after_name = le_u32_bytes(4) + segments;
    let name = name_block(sjis, encode_utf8(c.name));
    let after_header = name + after_name;
    assert(colorset_block(sjis, c) =~= cls_header() + after_header);
    lemma_spec_take(cls_header(), after_header);
    lemma_parse_name_block(sjis, c.name, after_name);
    lemma_spec_le_u32(4, segments);
    lemma_parse_segment_short(empty);
    lemma_parse_segments_bytes(c.segments, empty);
    assert(segments + empty =~= segments);
}

/// A colour set that was read is valid and holds at least one segment.
pub proof fn lemma_parse_colorset_valid(input: Seq<u8>)
    ensures
        parse_colorset(input) matches Ok((_, c)) ==> valid_colorset(c) && c.segments.len() > 0,
{
    if let Ok((after_header, _)) = spec_take(input, 6) {
        if let Ok((after_name, _)) = parse_colorset_name(after_header) {
            reveal(parse_colorset_name);
            if let Ok((after_reserved, _)) = spec_le_u32(after_name) {
                lemma_parse_segments_valid(after_reserved);
            }
        }
    }
}

/// Writing and reading a second time changes nothing more: what came back
/// the first time comes back again.
pub proof fn lemma_normalized_colorset_idempotent(c: ColorsetView)
    ensures
        normalized_colorset(normalized_colorset(c)) == normalized_colorset(c),
{
    lemma_normalized_segments_idempotent(c.segments);
}

/// Why a change to a colour set was refused.
#[derive(Debug, PartialEq, Eq, Clone, Copy, Structural)]
pub enum ColorsetError {
    /// There is no segment at the index.
    SegmentNotFound,
    /// The text is no valid name for a colour.
    ColorName(ColorNameError),
    /// The text is no hex colour.
    HexColor(ParseHexColorError),
}

/// The name that is set where `colorset_name` is asked for: the text itself,
/// or `UserColorset` where there is none or it is empty.
pub open spec fn wanted_colorset_name(colorset_name: Option<&str>) -> Seq<char> {
    match colorset_name {
        Some(text) => if text@.len() == 0 {
            "UserColorset"@
        } else {
            text@
        },
        None => "UserColorset"@,
    }
}

/// The name of a segment that is asked to be called `color_name`: none where
/// the text is empty.
pub open spec fn wanted_color_name(color_name: Seq<char>) -> Result<
    Option<Seq<char>>,
    ColorsetError,
> {
    if color_name.len() == 0 {
        Ok(None)
    } else if valid_color_name(color_name) {
        Ok(Some(color_name))
    } else {
        Err(ColorsetError::ColorName(ColorNameError::EncodedStringOver128Bytes))
    }
}

/// The colour set with the segment at `idx` replaced by `segment`.
pub open spec fn with_segment(c: ColorsetView, idx: int, segment: SegmentView) -> ColorsetView {
    ColorsetView { name: c.name, segments: c.segments.update(idx, segment) }
}

/// What `Colorset::set_color_name` makes of a colour set.
pub open spec fn spec_set_color_name(c: ColorsetView, color_name: Seq<char>, idx: int) -> Result<
    ColorsetView,
    ColorsetError,
> {
    if !(0 <= idx < c.segments.len()) {
        Err(ColorsetError::SegmentNotFound)
    } else {
        match wanted_color_name(color_name) {
            Err(e) => Err(e),
            Ok(name) => Ok(
                with_segment(c, idx, SegmentView { color: c.segments[idx].color, name }),
            ),
        }
    }
}

/// The colour set with the red, green and blue of the segment at `idx` set.
pub open spec fn spec_set_color_rgb(
    c: ColorsetView,
    red: u8,
    green: u8,
    blue: u8,
    idx: int,
) -> ColorsetView {
    with_segment(
        c,
        idx,
        SegmentView {
            color: ColorView { red, green, blue, transparent: c.segments[idx].color.transparent },
            name: c.segments[idx].name,
        },
    )
}

/// What `Colorset::set_color_hex` makes of a colour set, given the bytes of
/// the hex text.
pub open spec fn spec_set_color_hex(c: ColorsetView, hex: Seq<u8>, idx: int) -> Result<
    ColorsetView,
    ColorsetError,
> {
    match parse_hex_color_spec(hex) {
        Err(e) => Err(ColorsetError::HexColor(e)),
        Ok((red, green, blue)) => if 0 <= idx < c.segments.len() {
            Ok(spec_set_color_rgb(c, red, green, blue, idx))
        } else {
            Err(ColorsetError::SegmentNotFound)
        },
    }
}

/// The colour set with the transparency of the segment at `idx` set.
pub open spec fn spec_set_color_transparency(
    c: ColorsetView,
    transparent: bool,
    idx: int,
) -> ColorsetView {
    with_segment(
        c,
        idx,
        SegmentView {
            color: ColorView { transparent, ..c.segments[idx].color },
            name: c.segments[idx].name,
        },
    )
}

/// What `Colorset::add_color_segment` makes of a colour set, given the bytes
/// of the hex text.
pub open spec fn spec_add_color_segment(
    c: ColorsetView,
    color_name: Seq<char>,
    hex: Seq<u8>,
    transparent: bool,
) -> Result<ColorsetView, ColorsetError> {
    match parse_hex_color_spec(hex) {
        Err(e) => Err(ColorsetError::HexColor(e)),
        Ok((red, green, blue)) => match wanted_color_name(color_name) {
            Err(e) => Err(e),
            Ok(name) => Ok(
                ColorsetView {
                    name: c.name,
                    segments: c.segments.push(
                        SegmentView { color: ColorView { red, green, blue, transparent }, name },
                    ),
                },
            ),
        },
    }
}

/// True where the colours of `after` have the serialize modes of those of
/// `before`, segment by segment.
pub open spec fn same_serialize_modes(before: Seq<ColorSegment>, after: Seq<ColorSegment>) -> bool {
    forall|i: int|
        0 <= i < before.len() && i < after.len() ==> serialize_mode_of(#[trigger] after[i])
            == serialize_mode_of(before[i])
}

/// Changing one segment of a list changes its value at that place alone.
proof fn lemma_segment_views_update(segments: Seq<ColorSegment>, idx: int, segment: ColorSegment)
    requires
        0 <= idx < segments.len(),
    ensures
        segment_views(segments.update(idx, segment)) == segment_views(segments).update(
            idx,
            segment@,
        ),
{
    assert(segment_views(segments.update(idx, segment)) =~= segment_views(segments).update(
        idx,
        segment@,
    ));
}

/// The value of a new colour set: the name `NewColorset` and one segment,
/// transparent black without a name.
pub open spec fn new_colorset_view() -> ColorsetView {
    ColorsetView { name: "NewColorset"@, segments: seq![default_segment()] }
}

/// A new colour set that is written and read again comes back as it was.
pub proof fn lemma_new_colorset_round_trip(sjis: Seq<u8>)
    requires
        sjis.len() <= u16::MAX,
    ensures
        parse_colorset(colorset_block(sjis, new_colorset_view())) == Ok::<_, DecodeError>(
            (Seq::<u8>::empty(), new_colorset_view()),
        ),
{
    let c = new_colorset_view();
    lemma_preset_names_valid();
    assert(segments_contents_size(c.segments) == 12) by {
        assert(c.segments.drop_first() =~= Seq::<SegmentView>::empty());
        assert(segments_contents_size(c.segments.drop_first()) == 0);
    }
    lemma_parse_colorset_block(sjis, c);
    assert(normalized_segments(c.segments) =~= c.segments);
}

/// A colour set.
#[derive(Debug, PartialEq)]
pub struct Colorset {
    name: ColorsetName,
    color_segments: ColorSegments,
}

impl View for Colorset {
    type V = ColorsetView;

    open spec fn view(&self) -> ColorsetView {
        ColorsetView { name: self.spec_name()@, segments: self.spec_color_segments()@ }
    }
}

impl Colorset {
    /// The name of the colour set.
    pub closed spec fn spec_name(&self) -> ColorsetName {
        self.name
    }

    /// The segments of the colour set.
    pub closed spec fn spec_color_segments(&self) -> ColorSegments {
        self.color_segments
    }

    /// The segments themselves, first to last.
    pub open spec fn spec_segments(&self) -> Seq<ColorSegment> {
        self.spec_color_segments().spec_segments()
    }

    /// A colour set named `NewColorset` with one segment, transparent black
    /// without a name.
    pub fn new() -> (colorset: Colorset)
        ensures
            colorset@ == new_colorset_view(),
            colorset.spec_segments().len() == 1,
            all_serialized_as_struct(colorset.spec_segments()),
    {
        let mut new_colorset_name = ColorsetName::new();
        proof {
            lemma_preset_names_valid();
        }
        new_colorset_name.set_str("NewColorset").unwrap();
        Colorset { name: new_colorset_name, color_segments: ColorSegments::new() }
    }

    /// The size of the colour set in a file, where it fits the size fields.
    pub fn checked_size_in_cls(&self) -> (r: Option<u32>)
        ensures
            r is Some <==> self.fits_cls(),
            r matches Some(n) ==> n == self.spec_size_in_cls(),
    {
        let name_size = self.name.size_in_cls();
        match self.color_segments.checked_size_in_cls() {
            Some(segments_size) => {
                let total: u64 = 6 + name_size as u64 + 4 + segments_size as u64;
                if total <= u32::MAX as u64 {
                    Some(total as u32)
                } else {
                    None
                }
            },
            None => None,
        }
    }

    /// The colour set as the bytes of a file.
    pub fn as_bytes(&self) -> (bytes: Bytes)
        requires
            self.fits_fields(),
            self.spec_size_in_cls() <= usize::MAX,
        ensures
            frozen(bytes) == colorset_bytes(self@),
            valid_colorset(self@),
            self@.segments.len() > 0 ==> parse_colorset(frozen(bytes)) == Ok::<_, DecodeError>(
                (Seq::<u8>::empty(), normalized_colorset(self@)),
            ),
    {
        // Room for the whole file is asked for at once where a buffer can be
        // that large.
        let mut buf = match self.checked_size_in_cls() {
            Some(size) => if size <= 0x7FFF_FFFF {
                BytesMut::with_capacity(size as usize)
            } else {
                BytesMut::new()
            },
            None => BytesMut::new(),
        };
        self.extend_bytes(&mut buf);
        proof {
            assert(Seq::<u8>::empty() + colorset_bytes(self@) =~= colorset_bytes(self@));
            if self@.segments.len() > 0 {
                lemma_parse_colorset_block(sjis_lossy(self@.name), self@);
            }
        }
        buf.freeze()
    }
}

/// The names that the library sets by itself are valid names.
pub proof fn lemma_preset_names_valid()
    ensures
        check_colorset_name("NewColorset"@) == Ok::<(), ColorsetNameError>(()),
        check_colorset_name("UserColorset"@) == Ok::<(), ColorsetNameError>(()),
{
    reveal_strlit("NewColorset");
    reveal_strlit("UserColorset");
    lemma_colorset_name_bounds("NewColorset"@);
    lemma_colorset_name_bounds("UserColorset"@);
}

impl Colorset {
    /// Sets the name of the colour set: `colorset_name`, or `UserColorset`
    /// where there is none or it is empty. A name that is not valid is
    /// refused, and the colour set stays as it is.
    pub fn set_colorset_name(&mut self, colorset_name: Option<&str>) -> (r: Result<
        (),
        ColorsetNameError,
    >)
        ensures
            r == check_colorset_name(wanted_colorset_name(colorset_name)),
            colorset_name is None ==> r is Ok,
            final(self)@.name == if r is Ok {
                wanted_colorset_name(colorset_name)
            } else {
                old(self)@.name
            },
            final(self).spec_color_segments() == old(self).spec_color_segments(),
    {
        proof {
            lemma_preset_names_valid();
        }
        match colorset_name {
            Some(cs_name) => if cs_name.is_empty() {
                self.name.set_str("UserColorset")
            } else {
                self.name.set_str(cs_name)
            },
            None => self.name.set_str("UserColorset"),
        }
    }

    /// The name of the colour set.
    pub fn get_colorset_name(&self) -> (name: &str)
        ensures
            name@ == self@.name,
    {
        self.name.as_str()
    }

    /// The segments of the colour set.
    pub fn get_color_segments(&self) -> (color_segments: &ColorSegments)
        ensures
            *color_segments == self.spec_color_segments(),
    {
        &self.color_segments
    }

    /// Gives the segment at `idx` the name `color_name`, or takes its name
    /// away where `color_name` is empty. Where there is no such segment or the
    /// name is not valid, the colour set stays as it is.
    pub fn set_color_name(&mut self, color_name: &str, idx: usize) -> (r: Result<
        (),
        ColorsetError,
    >)
        ensures
            match r {
                Ok(()) => spec_set_color_name(old(self)@, color_name@, idx as int) == Ok::<
                    _,
                    ColorsetError,
                >(final(self)@),
                Err(e) => spec_set_color_name(old(self)@, color_name@, idx as int) == Err::<
                    ColorsetView,
                    _,
                >(e) && final(self)@ == old(self)@,
            },
            final(self).spec_segments().len() == old(self).spec_segments().len(),
            same_serialize_modes(old(self).spec_segments(), final(self).spec_segments()),
    {
        let new_name = if color_name.is_empty() {
            None
        } else {
            match ColorName::with_str(color_name) {
                Ok(name) => Some(name),
                Err(e) => {
                    return if idx < self.color_segments.len() {
                        Err(ColorsetError::ColorName(e))
                    } else {
                        Err(ColorsetError::SegmentNotFound)
                    };
                },
            }
        };
        match self.color_segments.get_mut(idx) {
            Some(cs) => {
                *cs.get_color_name_mut_ref() = new_name;
                proof {
                    lemma_segment_views_update(old(self).spec_segments(), idx as int, *cs);
                }
                Ok(())
            },
            None => Err(ColorsetError::SegmentNotFound),
        }
    }

    /// Sets red, green and blue of the segment at `idx`.
    pub fn set_color_rgb(&mut self, red: u8, green: u8, blue: u8, idx: usize)
        requires
            idx < old(self).spec_segments().len(),
        ensures
            final(self)@ == spec_set_color_rgb(old(self)@, red, green, blue, idx as int),
            final(self).spec_segments().len() == old(self).spec_segments().len(),
            same_serialize_modes(old(self).spec_segments(), final(self).spec_segments()),
    {
        match self.color_segments.get_mut(idx) {
            Some(cs) => {
                cs.get_color_mut_ref().set_rgb(red, green, blue);
                proof {
                    lemma_segment_views_update(old(self).spec_segments(), idx as int, *cs);
                }
            },
            None => {},
        }
    }

    /// Sets red, green and blue of the segment at `idx` from a hex colour and
    /// returns the colour as it then is. Where the text is no hex colour or
    /// there is no such segment, the colour set stays as it is.
    pub fn set_color_hex(&mut self, hex: &str, idx: usize) -> (r: Result<Color, ColorsetError>)
        ensures
            match r {
                Ok(color) => spec_set_color_hex(old(self)@, encode_utf8(hex@), idx as int) == Ok::<
                    _,
                    ColorsetError,
                >(final(self)@) && color == final(self).spec_segments()[idx as int].spec_color(),
                Err(e) => spec_set_color_hex(old(self)@, encode_utf8(hex@), idx as int) == Err::<
                    ColorsetView,
                    _,
                >(e) && final(self)@ == old(self)@,
            },
            final(self).spec_segments().len() == old(self).spec_segments().len(),
            same_serialize_modes(old(self).spec_segments(), final(self).spec_segments()),
    {
        let (red, green, blue) = match parse_hex_color(hex) {
            Ok(rgb) => rgb,
            Err(e) => {
                return Err(ColorsetError::HexColor(e));
            },
        };
        match self.color_segments.get_mut(idx) {
            Some(cs) => {
                let color = cs.get_color_mut_ref();
                color.set_rgb(red, green, blue);
                let changed = *color;
                proof {
                    lemma_segment_views_update(old(self).spec_segments(), idx as int, *cs);
                }
                Ok(changed)
            },
            None => Err(ColorsetError::SegmentNotFound),
        }
    }

    /// Sets the transparency of the segment at `idx`.
    pub fn set_color_transparency(&mut self, transparency: bool, idx: usize)
        requires
            idx < old(self).spec_segments().len(),
        ensures
            final(self)@ == spec_set_color_transparency(old(self)@, transparency, idx as int),
            final(self).spec_segments().len() == old(self).spec_segments().len(),
            same_serialize_modes(old(self).spec_segments(), final(self).spec_segments()),
    {
        match self.color_segments.get_mut(idx) {
            Some(cs) => {
                cs.get_color_mut_ref().set_transparency(transparency);
                proof {
                    lemma_segment_views_update(old(self).spec_segments(), idx as int, *cs);
                }
            },
            None => {},
        }
    }

    /// Takes the segment at `idx` out of the colour set.
    pub fn remove_color_segment(&mut self, idx: usize) -> (r: Result<(), ColorSegmentsError>)
        ensures
            r is Ok <==> idx < old(self).spec_segments().len(),
            final(self).spec_name() == old(self).spec_name(),
            final(self).spec_segments() == if r is Ok {
                old(self).spec_segments().remove(idx as int)
            } else {
                old(self).spec_segments()
            },
    {
        match self.color_segments.remove(idx) {
            Ok(_) => Ok(()),
            Err(e) => Err(e),
        }
    }

    /// Puts a segment of the given name, hex colour and transparency behind
    /// the last segment. An empty name stands for no name. Where the text is
    /// no hex colour or the name is not valid, the colour set stays as it is.
    pub fn add_color_segment(&mut self, color_name: &str, hex: &str, transparency: bool) -> (r:
        Result<(), ColorsetError>)
        ensures
            match r {
                Ok(()) => {
                    &&& spec_add_color_segment(
                        old(self)@,
                        color_name@,
                        encode_utf8(hex@),
                        transparency,
                    ) == Ok::<_, ColorsetError>(final(self)@)
                    &&& final(self).spec_segments().len() == old(self).spec_segments().len() + 1
                    &&& serialize_mode_of(final(self).spec_segments().last())
                        == SerializeMode::Struct
                },
                Err(e) => {
                    &&& spec_add_color_segment(
                        old(self)@,
                        color_name@,
                        encode_utf8(hex@),
                        transparency,
                    ) == Err::<ColorsetView, _>(e)
                    &&& final(self).spec_segments() == old(self).spec_segments()
                },
            },
            final(self).spec_name() == old(self).spec_name(),
            same_serialize_modes(old(self).spec_segments(), final(self).spec_segments()),
    {
        let (red, green, blue) = match parse_hex_color(hex) {
            Ok(rgb) => rgb,
            Err(e) => {
                return Err(ColorsetError::HexColor(e));
            },
        };
        let new_clr = Color::new(red, green, blue, transparency);
        let new_clr_name = if color_name.is_empty() {
            None
        } else {
            match ColorName::with_str(color_name) {
                Ok(name) => Some(name),
                Err(e) => {
                    return Err(ColorsetError::ColorName(e));
                },
            }
        };
        let new_clr_segment = ColorSegment::new(new_clr, new_clr_name);
        self.color_segments.push(new_clr_segment);
        proof {
            assert(segment_views(old(self).spec_segments().push(new_clr_segment))
                =~= segment_views(old(self).spec_segments()).push(new_clr_segment@));
        }
        Ok(())
    }

    /// Says whether `color_name` could be the name of a colour.
    pub fn validate_color_name(color_name: &str) -> (r: Result<(), ColorNameError>)
        ensures
            r is Ok <==> valid_color_name(color_name@),
    {
        ColorName::validate_str(color_name)
    }
}

impl ClsSize for Colorset {
    open spec fn contents_fit_cls(&self) -> bool {
        colorset_size(self@) <= u32::MAX
    }

    open spec fn fits_cls(&self) -> bool {
        colorset_size(self@) <= u32::MAX
    }

    open spec fn spec_size_contents_in_cls(&self) -> nat {
        colorset_size(self@)
    }

    open spec fn spec_size_in_cls(&self) -> nat {
        colorset_size(self@)
    }

    fn size_contents_in_cls(&self) -> (n: u32) {
        6 + self.name.size_in_cls() + 4 + self.color_segments.size_in_cls()
    }

    fn size_in_cls(&self) -> (n: u32) {
        self.size_contents_in_cls()
    }
}

impl ExtendBytesMut for Colorset {
    open spec fn cls_bytes(&self) -> Seq<u8> {
        colorset_bytes(self@)
    }

    open spec fn fits_fields(&self) -> bool {
        segments_contents_size(self@.segments) <= u32::MAX
    }

    proof fn lemma_cls_bytes_len(&self) {
        self.spec_name().lemma_cls_bytes_len();
        self.spec_color_segments().lemma_cls_bytes_len();
    }

    fn extend_bytes(&self, extended: &mut BytesMut)
        ensures
            valid_colorset(self@),
            sjis_lossy(self@.name).len() <= 960,
    {
        extended.extend_from_slice(&[0x53, 0x4C, 0x43, 0x43, 0x00, 0x01]);
        proof {
            self.name.lemma_cls_bytes_len();
        }
        self.name.extend_bytes(extended);
        put_le_u32(extended, 4u32);
        self.color_segments.extend_bytes(extended);
        proof {
            assert(written(*extended) =~= written(*old(extended)) + colorset_bytes(self@));
        }
    }
}

impl TryFromBytes for Colorset {
    open spec fn spec_try_from_bytes(input: Seq<u8>) -> Result<
        (Seq<u8>, ColorsetView),
        DecodeError,
    > {
        parse_colorset(input)
    }

    fn try_from_bytes(input: &[u8]) -> (r: Result<(&[u8], Colorset), DecodeError>)
        ensures
            r matches Ok((_, colorset)) ==> colorset.spec_segments().len() > 0,
            r matches Ok((_, colorset)) ==> all_serialized_as_struct(colorset.spec_segments()),
    {
        let (input, _) = take(input, 6usize)?;
        let (input, colorset_name) = ColorsetName::try_from_bytes(input)?;
        let (input, _) = le_u32(input)?;
        let (input, color_segments) = ColorSegments::try_from_bytes(input)?;
        let colorset = Colorset { name: colorset_name, color_segments };
        Ok((input, colorset))
    }
}

/// Reads a colour set from the bytes of a file. Bytes behind the last
/// segment that do not make up a whole segment are passed over.
pub fn decode(bytes: &[u8]) -> (r: Result<Colorset, DecodeError>)
    ensures
        match r {
            Ok(colorset) => parse_colorset(bytes@) matches Ok((_, c)) && c == colorset@,
            Err(e) => parse_colorset(bytes@) == Err::<(Seq<u8>, ColorsetView), _>(e),
        },
        r matches Ok(colorset) ==> colorset.spec_segments().len() > 0,
        r matches Ok(colorset) ==> all_serialized_as_struct(colorset.spec_segments()),
{
    match Colorset::try_from_bytes(bytes) {
        Ok((_, colorset)) => Ok(colorset),
        Err(e) => Err(e),
    }
}

/// The colour set as the bytes of a file, or `None` where its segments take
/// more bytes than their size field can say or the file more than a buffer
/// can hold.
pub fn encode(colorset: &Colorset) -> (r: Option<Bytes>)
    ensures
        r is Some <==> colorset.fits_fields() && colorset.spec_size_in_cls() <= usize::MAX,
        r matches Some(bytes) ==> frozen(bytes) == colorset_bytes(colorset@),
        r matches Some(bytes) ==> colorset@.segments.len() > 0 ==> parse_colorset(frozen(bytes))
            == Ok::<_, DecodeError>((Seq::<u8>::empty(), normalized_colorset(colorset@))),
{
    let name_size = colorset.name.size_in_cls();
    match colorset.color_segments.checked_size_contents_in_cls() {
        Some(contents) => {
            let size: u64 = 6 + name_size as u64 + 4 + 8 + contents as u64;
            if size <= usize::MAX as u64 {
                Some(colorset.as_bytes())
            } else {
                None
            }
        },
        None => None,
    }
}

} // verus!
