//! The segments of a colour set, in the order in which a file holds them.

use crate::buffer::written;
use crate::color::{Color, ColorView, SerializeMode};
use crate::color_segment::{
    bytes_color_segment, lemma_parse_segment_bytes, lemma_parse_segment_consumes,
    lemma_parse_segment_valid, lemma_segment_bytes_len, normalized_segment, parse_segment,
    segment_bytes, segment_size, serialize_mode_of, valid_segment, ColorSegment, SegmentView,
};
use crate::common::{ClsSize, ExtendBytesMut, TryFromBytes};
use crate::wire::{
    le_u32, le_u32_bytes, le_u32_value, lemma_spec_le_u32, put_le_u32, spec_le_u32, DecodeError,
};
use bytes::BytesMut;
use vstd::prelude::*;

verus! {

/// Why a segment could not be taken out of the list.
#[derive(Debug, PartialEq, Eq, Clone, Copy, Structural)]
pub enum ColorSegmentsError {
    /// There is no segment at the index.
    RemoveIndexError,
}

impl ColorSegmentsError {
    /// The error in words.
    pub fn message(&self) -> (text: &'static str)
        ensures
            text@ == "Invalid Index, cannot remove."@,
    {
        "Invalid Index, cannot remove."
    }
}

/// The segment that a new list starts with: transparent black without a name.
pub open spec fn default_segment() -> SegmentView {
    SegmentView { color: ColorView { red: 0, green: 0, blue: 0, transparent: true }, name: None }
}

/// True where every colour of the segments is serialized as its fields.
pub open spec fn all_serialized_as_struct(segments: Seq<ColorSegment>) -> bool {
    forall|i: int|
        0 <= i < segments.len() ==> serialize_mode_of(#[trigger] segments[i])
            == SerializeMode::Struct
}

/// The values of a run of segments.
pub open spec fn segment_views(segments: Seq<ColorSegment>) -> Seq<SegmentView> {
    segments.map_values(|s: ColorSegment| s@)
}

/// True of a list all of whose segments are valid.
pub open spec fn valid_segments(segments: Seq<SegmentView>) -> bool {
    forall|i: int| 0 <= i < segments.len() ==> valid_segment(#[trigger] segments[i])
}

/// The list that comes back when `segments` is written and read again.
pub open spec fn normalized_segments(segments: Seq<SegmentView>) -> Seq<SegmentView> {
    segments.map_values(|s: SegmentView| normalized_segment(s))
}

/// The number of bytes that the segments take together, each with its size
/// header.
pub open spec fn segments_contents_size(segments: Seq<SegmentView>) -> nat
    decreases segments.len(),
{
    if segments.len() == 0 {
        0
    } else {
        segment_size(segments[0]) + segments_contents_size(segments.drop_first())
    }
}

/// The segments in a file, one behind the other.
pub open spec fn segments_run_bytes(segments: Seq<SegmentView>) -> Seq<u8>
    decreases segments.len(),
{
    if segments.len() == 0 {
        seq![]
    } else {
        segment_bytes(segments[0]) + segments_run_bytes(segments.drop_first())
    }
}

/// The list in a file: the number of segments and the number of bytes they
/// take, each as a `u32`, then the segments.
pub open spec fn segments_bytes(segments: Seq<SegmentView>) -> Seq<u8> {
    le_u32_bytes(segments.len() as u32) + le_u32_bytes(segments_contents_size(segments) as u32)
        + segments_run_bytes(segments)
}

/// `head` put in front of a run of segments that may have failed to read.
pub open spec fn prepend_segments(
    head: Seq<SegmentView>,
    tail: Result<(Seq<u8>, Seq<SegmentView>), DecodeError>,
) -> Result<(Seq<u8>, Seq<SegmentView>), DecodeError> {
    match tail {
        Ok((rest, segments)) => Ok((rest, head + segments)),
        Err(e) => Err(e),
    }
}

/// Reading segments one after the other for as long as there is a whole one.
/// Input that ends inside a segment stops the run and is left over; a segment
/// that is there but wrong fails the run. A segment takes at least twelve
/// bytes off the input, so the run goes on with less input each time.
pub open spec fn parse_segment_run(input: Seq<u8>) -> Result<
    (Seq<u8>, Seq<SegmentView>),
    DecodeError,
>
    decreases input.len(),
{
    match parse_segment(input) {
        Err(DecodeError::TruncatedInput) => Ok((input, seq![])),
        Err(e) => Err(e),
        Ok((rest, segment)) => if rest.len() < input.len() {
            prepend_segments(seq![segment], parse_segment_run(rest))
        } else {
            Ok((input, seq![]))
        },
    }
}

/// Reading a list: the declared number of segments, the size field, which is
/// passed over, and the run of segments, which must hold as many as declared
/// and at least one.
pub open spec fn parse_segments(input: Seq<u8>) -> Result<
    (Seq<u8>, Seq<SegmentView>),
    DecodeError,
> {
    match spec_le_u32(input) {
        Err(e) => Err(e),
        Ok((after_count, count)) => match spec_le_u32(after_count) {
            Err(e) => Err(e),
            Ok((after_size, _)) => match parse_segment_run(after_size) {
                Err(e) => Err(e),
                Ok((rest, segments)) => if segments.len() == 0 {
                    Err(DecodeError::EmptySegmentList)
                } else if segments.len() != count {
                    Err(DecodeError::SegmentCountMismatch)
                } else {
                    Ok((rest, segments))
                },
            },
        },
    }
}

/// One more segment adds its size to the size of the list.
pub proof fn lemma_segments_contents_size_push(segments: Seq<SegmentView>, s: SegmentView)
    ensures
        segments_contents_size(segments.push(s)) == segments_contents_size(segments)
            + segment_size(s),
    decreases segments.len(),
{
    if segments.len() == 0 {
        assert(segments.push(s).drop_first() =~= segments);
    } else {
        assert(segments.push(s).drop_first() =~= segments.drop_first().push(s));
        lemma_segments_contents_size_push(segments.drop_first(), s);
    }
}

/// One more segment adds its bytes behind those of the list.
pub proof fn lemma_segments_run_bytes_push(segments: Seq<SegmentView>, s: SegmentView)
    ensures
        segments_run_bytes(segments.push(s)) == segments_run_bytes(segments) + segment_bytes(s),
    decreases segments.len(),
{
    if segments.len() == 0 {
        assert(segments.push(s).drop_first() =~= segments);
        assert(segments_run_bytes(segments.push(s)) =~= segments_run_bytes(segments)
            + segment_bytes(s));
    } else {
        assert(segments.push(s).drop_first() =~= segments.drop_first().push(s));
        lemma_segments_run_bytes_push(segments.drop_first(), s);
        assert(segments_run_bytes(segments.push(s)) =~= segments_run_bytes(segments)
            + segment_bytes(s));
    }
}

/// The segments take as many bytes as their sizes add up to, twelve at least
/// for each.
pub proof fn lemma_segments_run_bytes_len(segments: Seq<SegmentView>)
    ensures
        segments_run_bytes(segments).len() == segments_contents_size(segments),
        segments_contents_size(segments) >= 12 * segments.len(),
    decreases segments.len(),
{
    if segments.len() > 0 {
        lemma_segment_bytes_len(segments[0]);
        lemma_segments_run_bytes_len(segments.drop_first());
    }
}

/// A part of a list takes no more bytes than the whole.
pub proof fn lemma_segments_contents_size_prefix(segments: Seq<SegmentView>, k: int)
    requires
        0 <= k <= segments.len(),
    ensures
        segments_contents_size(segments.take(k)) <= segments_contents_size(segments),
    decreases segments.len() - k,
{
    if k < segments.len() {
        lemma_segments_contents_size_prefix(segments, k + 1);
        assert(segments.take(k + 1) =~= segments.take(k).push(segments[k]));
        lemma_segments_contents_size_push(segments.take(k), segments[k]);
    } else {
        assert(segments.take(k) =~= segments);
    }
}

/// Reading what valid segments write, followed by input in which no further
/// segment is complete, gives the segments back and leaves that input.
pub proof fn lemma_parse_segment_run_bytes(segments: Seq<SegmentView>, rest: Seq<u8>)
    requires
        valid_segments(segments),
        parse_segment(rest) == Err::<(Seq<u8>, SegmentView), _>(DecodeError::TruncatedInput),
    ensures
        parse_segment_run(segments_run_bytes(segments) + rest) == Ok::<_, DecodeError>(
            (rest, normalized_segments(segments)),
        ),
    decreases segments.len(),
{
    if segments.len() == 0 {
        assert(segments_run_bytes(segments) + rest =~= rest);
        assert(normalized_segments(segments) =~= Seq::<SegmentView>::empty());
    } else {
        let first = segments[0];
        let others = segments.drop_first();
        let tail = segments_run_bytes(others) + rest;
        assert(segments_run_bytes(segments) + rest =~= segment_bytes(first) + tail);
        assert(valid_segment(first));
        assert(valid_segments(others)) by {
            assert forall|i: int| 0 <= i < others.len() implies valid_segment(
                #[trigger] others[i],
            ) by {
                assert(others[i] == segments[i + 1]);
            }
        }
        lemma_parse_segment_bytes(first, tail);
        lemma_segment_bytes_len(first);
        lemma_parse_segment_run_bytes(others, rest);
        assert(seq![normalized_segment(first)] + normalized_segments(others)
            =~= normalized_segments(segments));
    }
}

/// Reading what a valid list of at least one segment writes, where its sizes
/// fit their fields, gives the list back.
pub proof fn lemma_parse_segments_bytes(segments: Seq<SegmentView>, rest: Seq<u8>)
    requires
        valid_segments(segments),
        segments.len() > 0,
        segments_contents_size(segments) <= u32::MAX,
        parse_segment(rest) == Err::<(Seq<u8>, SegmentView), _>(DecodeError::TruncatedInput),
    ensures
        parse_segments(segments_bytes(segments) + rest) == Ok::<_, DecodeError>(
            (rest, normalized_segments(segments)),
        ),
{
    let run = segments_run_bytes(segments) + rest;
    let count = segments.len() as u32;
    let size = segments_contents_size(segments) as u32;
    lemma_segments_run_bytes_len(segments);
    assert(segments_bytes(segments) + rest =~= le_u32_bytes(count) + (le_u32_bytes(size) + run));
    lemma_spec_le_u32(count, le_u32_bytes(size) + run);
    lemma_spec_le_u32(size, run);
    lemma_parse_segment_run_bytes(segments, rest);
}

/// Every segment that a run gives is valid, and the run takes off the input
/// what its segments take.
pub proof fn lemma_parse_segment_run_valid(input: Seq<u8>)
    ensures
        parse_segment_run(input) matches Ok((rest, segments)) ==> valid_segments(segments)
            && rest.len() + 12 * segments.len() <= input.len(),
    decreases input.len(),
{
    lemma_parse_segment_valid(input);
    lemma_parse_segment_consumes(input);
    if let Ok((rest, segment)) = parse_segment(input) {
        if rest.len() < input.len() {
            lemma_parse_segment_run_valid(rest);
            if let Ok((_, others)) = parse_segment_run(rest) {
                let segments = seq![segment] + others;
                assert forall|i: int| 0 <= i < segments.len() implies valid_segment(
                    #[trigger] segments[i],
                ) by {
                    if i > 0 {
                        assert(segments[i] == others[i - 1]);
                    }
                }
            }
        }
    }
}

/// A list that was read holds at least one segment, holds as many segments as
/// it declares, and holds valid segments only.
pub proof fn lemma_parse_segments_valid(input: Seq<u8>)
    ensures
        parse_segments(input) matches Ok((_, segments)) ==> {
            &&& segments.len() > 0
            &&& segments.len() == le_u32_value(input)
            &&& valid_segments(segments)
        },
{
    if let Ok((after_count, _)) = spec_le_u32(input) {
        if let Ok((after_size, _)) = spec_le_u32(after_count) {
            lemma_parse_segment_run_valid(after_size);
        }
    }
}

/// Writing and reading a second time changes nothing more.
pub proof fn lemma_normalized_segments_idempotent(segments: Seq<SegmentView>)
    ensures
        normalized_segments(normalized_segments(segments)) == normalized_segments(segments),
{
    assert(normalized_segments(normalized_segments(segments)) =~= normalized_segments(segments));
}

/// A list that holds no whole segment is refused as empty, whatever number of
/// segments it declares.
pub proof fn lemma_parse_segments_empty(count: u32, size: u32, rest: Seq<u8>)
    requires
        parse_segment(rest) == Err::<(Seq<u8>, SegmentView), _>(DecodeError::TruncatedInput),
    ensures
        parse_segments(le_u32_bytes(count) + le_u32_bytes(size) + rest) == Err::<
            (Seq<u8>, Seq<SegmentView>),
            _,
        >(DecodeError::EmptySegmentList),
{
    assert(le_u32_bytes(count) + le_u32_bytes(size) + rest =~= le_u32_bytes(count) + (le_u32_bytes(
        size,
    ) + rest));
    lemma_spec_le_u32(count, le_u32_bytes(size) + rest);
    lemma_spec_le_u32(size, rest);
}

/// A list that declares another number of segments than it holds is refused.
pub proof fn lemma_parse_segments_count_mismatch(
    count: u32,
    size: u32,
    segments: Seq<SegmentView>,
    rest: Seq<u8>,
)
    requires
        valid_segments(segments),
        segments.len() > 0,
        segments.len() != count,
        parse_segment(rest) == Err::<(Seq<u8>, SegmentView), _>(DecodeError::TruncatedInput),
    ensures
        parse_segments(
            le_u32_bytes(count) + le_u32_bytes(size) + segments_run_bytes(segments) + rest,
        ) == Err::<(Seq<u8>, Seq<SegmentView>), _>(DecodeError::SegmentCountMismatch),
{
    let run = segments_run_bytes(segments) + rest;
    assert(le_u32_bytes(count) + le_u32_bytes(size) + segments_run_bytes(segments) + rest
        =~= le_u32_bytes(count) + (le_u32_bytes(size) + run));
    lemma_spec_le_u32(count, le_u32_bytes(size) + run);
    lemma_spec_le_u32(size, run);
    lemma_parse_segment_run_bytes(segments, rest);
    assert(normalized_segments(segments).len() == segments.len());
}

/// The segments of a colour set.
#[derive(Debug, PartialEq)]
pub struct ColorSegments {
    val: Vec<ColorSegment>,
}

impl View for ColorSegments {
    type V = Seq<SegmentView>;

    open spec fn view(&self) -> Seq<SegmentView> {
        segment_views(self.spec_segments())
    }
}

impl ColorSegments {
    /// The segments themselves, first to last.
    pub closed spec fn spec_segments(&self) -> Seq<ColorSegment> {
        self.val@
    }

    /// The list that a new colour set starts with: one segment, transparent
    /// black without a name.
    pub fn new() -> (segments: Self)
        ensures
            segments@ == seq![default_segment()],
            segments.spec_segments().len() == 1,
            all_serialized_as_struct(segments.spec_segments()),
    {
        let mut new_color_segment_vec = Vec::<ColorSegment>::new();
        new_color_segment_vec.push(ColorSegment::new(Color::new(0, 0, 0, true), None));
        let segments = ColorSegments { val: new_color_segment_vec };
        proof {
            assert(segments@ =~= seq![default_segment()]);
        }
        segments
    }

    /// Takes the segment at `index` out of the list and returns it.
    pub fn remove(&mut self, index: usize) -> (r: Result<ColorSegment, ColorSegmentsError>)
        ensures
            r is Ok <==> index < old(self).spec_segments().len(),
            r matches Ok(segment) ==> segment == old(self).spec_segments()[index as int]
                && final(self).spec_segments() == old(self).spec_segments().remove(index as int),
            r is Err ==> final(self).spec_segments() == old(self).spec_segments(),
    {
        if index < self.val.len() {
            Ok(self.val.remove(index))
        } else {
            Err(ColorSegmentsError::RemoveIndexError)
        }
    }

    /// Puts `color_segment` behind the last segment.
    pub fn push(&mut self, color_segment: ColorSegment)
        ensures
            final(self).spec_segments() == old(self).spec_segments().push(color_segment),
    {
        self.val.push(color_segment)
    }

    /// The number of segments.
    pub fn len(&self) -> (n: usize)
        ensures
            n == self.spec_segments().len(),
    {
        self.val.len()
    }

    /// The segment at `index`, if there is one.
    pub fn get(&self, index: usize) -> (r: Option<&ColorSegment>)
        ensures
            r is Some <==> index < self.spec_segments().len(),
            r matches Some(segment) ==> *segment == self.spec_segments()[index as int],
    {
        if index < self.val.len() {
            Some(&self.val[index])
        } else {
            None
        }
    }

    /// The segment at `index`, if there is one, to be changed in place.
    pub fn get_mut(&mut self, index: usize) -> (r: Option<&mut ColorSegment>)
        ensures
            r is Some <==> index < old(self).spec_segments().len(),
            match r {
                Some(segment) => {
                    &&& *segment == old(self).spec_segments()[index as int]
                    &&& final(self).spec_segments() == old(self).spec_segments().update(
                        index as int,
                        *final(segment),
                    )
                },
                None => final(self).spec_segments() == old(self).spec_segments(),
            },
    {
        if index < self.val.len() {
            Some(&mut self.val[index])
        } else {
            None
        }
    }

    /// The size of the segments in a file, where it fits a `u32`.
    pub fn checked_size_contents_in_cls(&self) -> (r: Option<u32>)
        ensures
            r is Some <==> self.contents_fit_cls(),
            r matches Some(n) ==> n == self.spec_size_contents_in_cls(),
    {
        let mut total: u64 = 0;
        let mut i: usize = 0;
        proof {
            assert(self@.take(0) =~= Seq::<SegmentView>::empty());
        }
        while i < self.val.len()
            invariant
                i <= self.val@.len(),
                total == segments_contents_size(self@.take(i as int)),
                total <= u32::MAX,
            decreases self.val@.len() - i,
        {
            proof {
                assert(self@.take(i + 1) =~= self@.take(i as int).push(self@[i as int]));
                lemma_segments_contents_size_push(self@.take(i as int), self@[i as int]);
                lemma_segments_contents_size_prefix(self@, i + 1);
            }
            total = total + self.val[i].size_in_cls() as u64;
            if total > u32::MAX as u64 {
                return None;
            }
            i = i + 1;
        }
        proof {
            assert(self@.take(i as int) =~= self@);
        }
        Some(total as u32)
    }

    /// The size of the list in a file, where it fits a `u32`.
    pub fn checked_size_in_cls(&self) -> (r: Option<u32>)
        ensures
            r is Some <==> self.fits_cls(),
            r matches Some(n) ==> n == self.spec_size_in_cls(),
    {
        match self.checked_size_contents_in_cls() {
            Some(contents) => if contents <= u32::MAX - 8 {
                Some(8 + contents)
            } else {
                None
            },
            None => None,
        }
    }
}

impl ClsSize for ColorSegments {
    open spec fn contents_fit_cls(&self) -> bool {
        segments_contents_size(self@) <= u32::MAX
    }

    open spec fn fits_cls(&self) -> bool {
        8 + segments_contents_size(self@) <= u32::MAX
    }

    open spec fn spec_size_contents_in_cls(&self) -> nat {
        segments_contents_size(self@)
    }

    open spec fn spec_size_in_cls(&self) -> nat {
        8 + segments_contents_size(self@)
    }

    fn size_in_cls(&self) -> (n: u32) {
        4 + 4 + self.size_contents_in_cls()
    }

    fn size_contents_in_cls(&self) -> (n: u32) {
        let mut acc: u32 = 0;
        let mut i: usize = 0;
        proof {
            assert(self@.take(0) =~= Seq::<SegmentView>::empty());
        }
        while i < self.val.len()
            invariant
                i <= self.val@.len(),
                acc == segments_contents_size(self@.take(i as int)),
                self.contents_fit_cls(),
            decreases self.val@.len() - i,
        {
            proof {
                assert(self@.take(i + 1) =~= self@.take(i as int).push(self@[i as int]));
                lemma_segments_contents_size_push(self@.take(i as int), self@[i as int]);
                lemma_segments_contents_size_prefix(self@, i + 1);
            }
            acc = acc + self.val[i].size_in_cls();
            i = i + 1;
        }
        proof {
            assert(self@.take(i as int) =~= self@);
        }
        acc
    }
}

impl ExtendBytesMut for ColorSegments {
    open spec fn cls_bytes(&self) -> Seq<u8> {
        segments_bytes(self@)
    }

    open spec fn fits_fields(&self) -> bool {
        segments_contents_size(self@) <= u32::MAX
    }

    proof fn lemma_cls_bytes_len(&self) {
        lemma_segments_run_bytes_len(self@);
    }

    fn extend_bytes(&self, extended: &mut BytesMut)
        ensures
            valid_segments(self@),
    {
        proof {
            lemma_segments_run_bytes_len(self@);
        }
        let num_colors = self.val.len() as u32;
        put_le_u32(extended, num_colors);
        put_le_u32(extended, self.size_contents_in_cls());
        let ghost header = written(*extended);
        let mut i: usize = 0;
        proof {
            assert(self@.take(0) =~= Seq::<SegmentView>::empty());
            assert(header + segments_run_bytes(self@.take(0)) =~= header);
        }
        while i < self.val.len()
            invariant
                i <= self.val@.len(),
                self.fits_fields(),
                header.len() == written(*old(extended)).len() + 8,
                written(*old(extended)).len() + self.spec_size_in_cls() <= usize::MAX,
                written(*extended) == header + segments_run_bytes(self@.take(i as int)),
                forall|j: int| 0 <= j < i ==> valid_segment(#[trigger] self@[j]),
            decreases self.val@.len() - i,
        {
            proof {
                assert(self@.take(i + 1) =~= self@.take(i as int).push(self@[i as int]));
                lemma_segments_contents_size_push(self@.take(i as int), self@[i as int]);
                lemma_segments_contents_size_prefix(self@, i + 1);
                lemma_segments_run_bytes_push(self@.take(i as int), self@[i as int]);
                lemma_segments_run_bytes_len(self@.take(i as int));
            }
            self.val[i].extend_bytes(extended);
            i = i + 1;
            proof {
                assert(written(*extended) =~= header + segments_run_bytes(self@.take(i as int)));
            }
        }
        proof {
            assert(self@.take(i as int) =~= self@);
            assert(written(*extended) =~= written(*old(extended)) + segments_bytes(self@));
        }
    }
}

/// One more segment read joins those read before it.
proof fn lemma_prepend_segments_push(
    head: Seq<SegmentView>,
    s: SegmentView,
    tail: Result<(Seq<u8>, Seq<SegmentView>), DecodeError>,
)
    ensures
        prepend_segments(head, prepend_segments(seq![s], tail)) == prepend_segments(
            head.push(s),
            tail,
        ),
{
    if let Ok((rest, segments)) = tail {
        assert(head + (seq![s] + segments) =~= head.push(s) + segments);
    }
}

impl TryFromBytes for ColorSegments {
    open spec fn spec_try_from_bytes(input: Seq<u8>) -> Result<
        (Seq<u8>, Seq<SegmentView>),
        DecodeError,
    > {
        parse_segments(input)
    }

    fn try_from_bytes(input: &[u8]) -> (r: Result<(&[u8], ColorSegments), DecodeError>)
        ensures
            r matches Ok((_, list)) ==> list.spec_segments().len() > 0
                && list.spec_segments().len() == le_u32_value(input@),
            r matches Ok((_, list)) ==> all_serialized_as_struct(list.spec_segments()),
    {
        let (after_count, num_colors) = le_u32(input)?;
        let (body, _) = le_u32(after_count)?;
        let mut color_segment_vec: Vec<ColorSegment> = Vec::new();
        let mut rest = body;
        proof {
            assert(segment_views(color_segment_vec@) =~= Seq::<SegmentView>::empty());
            if let Ok((r, segments)) = parse_segment_run(rest@) {
                assert(segment_views(color_segment_vec@) + segments =~= segments);
            }
        }
        loop
            invariant
                spec_le_u32(input@) == Ok::<_, DecodeError>((after_count@, num_colors)),
                spec_le_u32(after_count@) is Ok,
                spec_le_u32(after_count@)->Ok_0.0 == body@,
                parse_segment_run(body@) == prepend_segments(
                    segment_views(color_segment_vec@),
                    parse_segment_run(rest@),
                ),
                all_serialized_as_struct(color_segment_vec@),
            ensures
                parse_segment_run(body@) == Ok::<_, DecodeError>(
                    (rest@, segment_views(color_segment_vec@)),
                ),
            decreases rest@.len(),
        {
            proof {
                lemma_parse_segment_consumes(rest@);
            }
            match bytes_color_segment(rest) {
                Ok((after, segment)) => {
                    proof {
                        lemma_prepend_segments_push(
                            segment_views(color_segment_vec@),
                            segment@,
                            parse_segment_run(after@),
                        );
                        assert(segment_views(color_segment_vec@.push(segment))
                            =~= segment_views(color_segment_vec@).push(segment@));
                    }
                    color_segment_vec.push(segment);
                    rest = after;
                },
                Err(DecodeError::TruncatedInput) => {
                    proof {
                        assert(segment_views(color_segment_vec@) + Seq::<SegmentView>::empty()
                            =~= segment_views(color_segment_vec@));
                    }
                    break ;
                },
                Err(e) => {
                    return Err(e);
                },
            }
        }
        if color_segment_vec.len() == 0 {
            Err(DecodeError::EmptySegmentList)
        } else if color_segment_vec.len() as u64 != num_colors as u64 {
            Err(DecodeError::SegmentCountMismatch)
        } else {
            Ok((rest, ColorSegments { val: color_segment_vec }))
        }
    }
}

} // verus!
