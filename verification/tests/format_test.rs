use bytes::BytesMut;
use cls_rs::color::{Color, ParseHexColorError, SerializedColor};
use cls_rs::color_name::{ColorName, ColorNameError};
use cls_rs::color_segment::ColorSegment;
use cls_rs::color_segments::{ColorSegments, ColorSegmentsError};
use cls_rs::colorset::{decode, encode, Colorset, ColorsetError};
use cls_rs::colorset_name::{ColorsetName, ColorsetNameError};
use cls_rs::common::{ClsSize, ExtendBytesMut, TryFromBytes};
use cls_rs::wire::{le_u16, le_u32, put_le_u16, put_le_u32, take, DecodeError};

fn bytes_of<T: ExtendBytesMut>(value: &T) -> Vec<u8> {
    let mut buf = BytesMut::new();
    value.extend_bytes(&mut buf);
    buf.as_ref().to_vec()
}

fn named(name: &str) -> ColorName {
    ColorName::with_str(name).unwrap()
}

#[test]
fn integers_are_little_endian() {
    let mut buf = BytesMut::new();
    put_le_u16(&mut buf, 0x1234);
    put_le_u32(&mut buf, 0x89ABCDEF);
    assert_eq!(buf.as_ref(), [0x34, 0x12, 0xEF, 0xCD, 0xAB, 0x89]);

    let (rest, a) = le_u16(buf.as_ref()).unwrap();
    assert_eq!(a, 0x1234);
    let (rest, b) = le_u32(rest).unwrap();
    assert_eq!(b, 0x89ABCDEF);
    assert!(rest.is_empty());

    assert_eq!(le_u16(&[1]), Err(DecodeError::TruncatedInput));
    assert_eq!(le_u32(&[1, 2, 3]), Err(DecodeError::TruncatedInput));
}

#[test]
fn take_cuts_a_prefix() {
    let input = [1u8, 2, 3, 4, 5];
    let (rest, head) = take(&input, 2).unwrap();
    assert_eq!(head, [1, 2]);
    assert_eq!(rest, [3, 4, 5]);
    let (rest, head) = take(&input, 5).unwrap();
    assert_eq!(head, [1, 2, 3, 4, 5]);
    assert!(rest.is_empty());
    assert_eq!(take(&input, 6), Err(DecodeError::TruncatedInput));
}

#[test]
fn color_bytes_example() {
    assert_eq!(bytes_of(&Color::new(1, 128, 255, false)), [1, 128, 255, 255]);
    assert_eq!(bytes_of(&Color::new(1, 128, 255, true)), [0, 0, 0, 0]);
}

#[test]
fn color_decode_keeps_only_whether_alpha_is_zero() {
    let (rest, c) = Color::try_from_bytes(&[10, 20, 30, 1, 99]).unwrap();
    assert_eq!(c, Color::new(10, 20, 30, false));
    assert_eq!(rest, [99]);
    let (_, c) = Color::try_from_bytes(&[10, 20, 30, 0]).unwrap();
    assert_eq!(c, Color::new(0, 0, 0, true));
    assert_eq!(Color::try_from_bytes(&[1, 2, 3]).unwrap_err(), DecodeError::TruncatedInput);
}

#[test]
fn color_getters_and_setters() {
    let mut c = Color::new(1, 2, 3, false);
    assert_eq!(c.get_rgb(), (1, 2, 3));
    assert!(!c.get_transparency());
    c.set_transparency(true);
    assert!(c.get_transparency());
    assert_eq!(c.get_rgb(), (1, 2, 3));
    c.set_rgb(4, 5, 6);
    assert_eq!(c.get_rgb(), (4, 5, 6));
    assert_eq!(c.size_in_cls(), 4);
    assert_eq!(c.size_contents_in_cls(), 4);
}

#[test]
fn hex_color_forms() {
    assert_eq!(Color::new_with_hex_color("#0180ff", true).unwrap(), Color::new(1, 128, 255, true));
    assert_eq!(Color::new_with_hex_color("0180FF", false).unwrap().get_rgb(), (1, 128, 255));
    assert_eq!(Color::new_with_hex_color("#1aF", false).unwrap().get_rgb(), (0x11, 0xAA, 0xFF));
    assert_eq!(Color::new_with_hex_color("09c", false).unwrap().get_rgb(), (0x00, 0x99, 0xCC));
    assert_eq!(Color::new(0, 9, 171, false).get_hex_color(true), "#0009AB");
}

#[test]
fn hex_color_errors() {
    for text in ["", "#", "12", "12345", "1234567", "#1234", "#1234567", "A123456", "1234"] {
        assert_eq!(
            Color::new_with_hex_color(text, false).unwrap_err(),
            ParseHexColorError::InvalidFormat,
            "{}",
            text
        );
    }
    for text in ["#12345G", "12 456", "#+1+2+3", "+1+2+3", "g00", "#00-", "\u{20AC}\u{20AC}", "#12", "#12345"] {
        assert_eq!(
            Color::new_with_hex_color(text, false).unwrap_err(),
            ParseHexColorError::InvalidDigit,
            "{}",
            text
        );
    }
    let mut c = Color::new(1, 2, 3, true);
    assert_eq!(c.set_rgb_with_hex_color("#12"), Err(ParseHexColorError::InvalidDigit));
    assert_eq!(c, Color::new(1, 2, 3, true));
    assert_eq!(ParseHexColorError::InvalidFormat.message(), "Invalid Hex Color Str.");
    assert_eq!(ParseHexColorError::InvalidDigit.message(), "invalid digit found in string");
}

#[test]
fn serialized_forms() {
    let mut c = Color::new_with_hex_color("#FF8000", false).unwrap();
    assert!(matches!(
        c.serialized(),
        SerializedColor::Fields { red: 255, green: 128, blue: 0, transparency: false }
    ));

    c.set_serialize_mode_seq();
    assert!(matches!(c.serialized(), SerializedColor::Items(v) if v == [255, 128, 0]));
    c.set_transparency(true);
    assert!(matches!(c.serialized(), SerializedColor::Items(v) if v.is_empty()));

    c.set_transparency(false);
    c.set_serialize_mode_hex();
    assert!(matches!(c.serialized(), SerializedColor::Text(t) if t == "FF8000"));
    c.set_transparency(true);
    assert!(matches!(c.serialized(), SerializedColor::Text(t) if t.is_empty()));

    c.set_transparency(false);
    c.set_serialize_mode_hex_with_number_sign();
    assert!(matches!(c.serialized(), SerializedColor::Text(t) if t == "#FF8000"));
    c.set_transparency(true);
    assert!(matches!(c.serialized(), SerializedColor::Text(t) if t.is_empty()));

    c.set_serialize_mode_struct();
    assert!(matches!(
        c.serialized(),
        SerializedColor::Fields { red: 255, green: 128, blue: 0, transparency: true }
    ));
    assert_eq!(*c.get_serialize_mode(), cls_rs::color::SerializeMode::Struct);
}

#[test]
fn color_name_length_boundary() {
    let mut name = ColorName::new();
    assert_eq!(name.as_str(), "");

    // 64 units, 128 bytes
    let fits = "a".repeat(64);
    assert_eq!(name.set_str(&fits), Ok(()));
    assert_eq!(name.as_str(), fits);
    assert_eq!(name.size_contents_in_cls(), 128);
    assert_eq!(name.size_in_cls(), 130);

    // 65 units, 130 bytes: refused, and the name stays
    assert_eq!(name.set_str(&"a".repeat(65)), Err(ColorNameError::EncodedStringOver128Bytes));
    assert_eq!(name.as_str(), fits);

    // a surrogate pair counts as two units
    assert_eq!(name.set_str(&"\u{1F5FF}".repeat(32)), Ok(()));
    assert_eq!(name.size_contents_in_cls(), 128);
    assert!(name.set_str(&("a".repeat(63) + "\u{1F5FF}")).is_err());
    assert!(name.set_str(&("a".repeat(62) + "\u{1F5FF}")).is_ok());

    assert!(ColorName::validate_str(&fits).is_ok());
    assert!(ColorName::validate_str(&"a".repeat(65)).is_err());
    assert!(ColorName::with_str(&"a".repeat(65)).is_err());
    assert_eq!(
        ColorNameError::EncodedStringOver128Bytes.message(),
        "Encoded String in utf16 is over 128 bytes."
    );
}

#[test]
fn color_name_bytes_example() {
    assert_eq!(bytes_of(&named("\u{1F5FF}")), [0x04, 0x00, 0x3D, 0xD8, 0xFF, 0xDD]);
    assert_eq!(bytes_of(&named("A\u{3042}")), [0x04, 0x00, 0x41, 0x00, 0x42, 0x30]);
    assert_eq!(bytes_of(&ColorName::new()), [0x00, 0x00]);
}

#[test]
fn color_name_decode_errors() {
    // the length says more than there is
    assert_eq!(ColorName::try_from_bytes(&[4, 0, 0x41, 0]).unwrap_err(), DecodeError::TruncatedInput);
    assert_eq!(ColorName::try_from_bytes(&[4]).unwrap_err(), DecodeError::TruncatedInput);
    // an odd number of bytes
    assert_eq!(ColorName::try_from_bytes(&[1, 0, 0x41]).unwrap_err(), DecodeError::InvalidUtf16);
    // a high surrogate alone, a low surrogate alone, a high surrogate before a letter
    assert_eq!(ColorName::try_from_bytes(&[2, 0, 0x3D, 0xD8]).unwrap_err(), DecodeError::InvalidUtf16);
    assert_eq!(ColorName::try_from_bytes(&[2, 0, 0xFF, 0xDD]).unwrap_err(), DecodeError::InvalidUtf16);
    assert_eq!(
        ColorName::try_from_bytes(&[4, 0, 0x3D, 0xD8, 0x41, 0x00]).unwrap_err(),
        DecodeError::InvalidUtf16
    );
    // 65 units
    let mut long = vec![130u8, 0];
    for _ in 0..65 {
        long.extend_from_slice(&[0x61, 0x00]);
    }
    assert_eq!(ColorName::try_from_bytes(&long).unwrap_err(), DecodeError::TooLong);
    // what follows the name is handed back
    let (rest, name) = ColorName::try_from_bytes(&[2, 0, 0x41, 0, 7, 8]).unwrap();
    assert_eq!(name.as_str(), "A");
    assert_eq!(rest, [7, 8]);
}

#[test]
fn segment_bytes_layout() {
    let with_name = ColorSegment::new(Color::new(1, 2, 3, false), Some(named("AB")));
    assert_eq!(
        bytes_of(&with_name),
        [14, 0, 0, 0, 1, 2, 3, 0xFF, 1, 0, 0, 0, 4, 0, 0x41, 0, 0x42, 0]
    );
    assert_eq!(with_name.size_contents_in_cls(), 14);
    assert_eq!(with_name.size_in_cls(), 18);

    let without = ColorSegment::new(Color::new(1, 2, 3, true), None);
    assert_eq!(bytes_of(&without), [8, 0, 0, 0, 0, 0, 0, 0, 0, 0, 0, 0]);
    assert_eq!(without.size_contents_in_cls(), 8);
    assert_eq!(without.size_in_cls(), 12);
}

#[test]
fn segment_decode_ignores_the_size_header() {
    let bytes = [99, 99, 99, 99, 1, 2, 3, 0xFF, 0, 0, 0, 0, 5];
    let (rest, segment) = ColorSegment::try_from_bytes(&bytes).unwrap();
    assert_eq!(segment, ColorSegment::new(Color::new(1, 2, 3, false), None));
    assert_eq!(rest, [5]);
    // any flag but 1 means that there is no name
    let bytes = [8, 0, 0, 0, 1, 2, 3, 0xFF, 2, 0, 0, 0, 2, 0, 0x41, 0];
    let (rest, segment) = ColorSegment::try_from_bytes(&bytes).unwrap();
    assert_eq!(segment, ColorSegment::new(Color::new(1, 2, 3, false), None));
    assert_eq!(rest, [2, 0, 0x41, 0]);
    assert_eq!(
        ColorSegment::try_from_bytes(&[8, 0, 0, 0, 1, 2, 3, 0xFF, 1, 0, 0]).unwrap_err(),
        DecodeError::TruncatedInput
    );
}

#[test]
fn segment_with_val_and_equality() {
    let a = ColorSegment::with_val(1, 2, 3, false, Some("red")).unwrap();
    let b = ColorSegment::new(Color::new(1, 2, 3, false), Some(named("red")));
    assert_eq!(a, b);
    assert_ne!(a, ColorSegment::with_val(1, 2, 3, false, None).unwrap());
    assert_ne!(a, ColorSegment::with_val(1, 2, 3, false, Some("blue")).unwrap());
    assert_ne!(a, ColorSegment::with_val(1, 2, 4, false, Some("red")).unwrap());
    assert_eq!(
        ColorSegment::with_val(1, 2, 3, false, Some(&"a".repeat(65))).unwrap_err(),
        ColorNameError::EncodedStringOver128Bytes
    );
    let mut c = a.clone();
    assert_eq!(c, a);
    c.get_color_mut_ref().set_rgb(9, 9, 9);
    *c.get_color_name_mut_ref() = None;
    assert_eq!(c, ColorSegment::with_val(9, 9, 9, false, None).unwrap());
    assert_eq!(c.get_color().get_rgb(), (9, 9, 9));
    assert!(c.get_color_name().is_none());
}

#[test]
fn segment_list_push_remove() {
    let mut list = ColorSegments::new();
    assert_eq!(list.len(), 1);
    assert_eq!(*list.get(0).unwrap(), ColorSegment::new(Color::new(0, 0, 0, true), None));
    assert!(list.get(1).is_none());

    list.push(ColorSegment::with_val(1, 2, 3, false, Some("one")).unwrap());
    list.push(ColorSegment::with_val(4, 5, 6, false, None).unwrap());
    assert_eq!(list.len(), 3);

    assert_eq!(list.remove(3).unwrap_err(), ColorSegmentsError::RemoveIndexError);
    assert_eq!(list.len(), 3);
    let taken = list.remove(1).unwrap();
    assert_eq!(taken, ColorSegment::with_val(1, 2, 3, false, Some("one")).unwrap());
    assert_eq!(list.len(), 2);
    assert_eq!(*list.get(1).unwrap(), ColorSegment::with_val(4, 5, 6, false, None).unwrap());

    list.get_mut(1).unwrap().get_color_mut_ref().set_transparency(true);
    assert!(list.get(1).unwrap().get_color().get_transparency());
    assert!(list.get_mut(2).is_none());
    assert_eq!(ColorSegmentsError::RemoveIndexError.message(), "Invalid Index, cannot remove.");
}

#[test]
fn segment_list_bytes_layout() {
    let mut list = ColorSegments::new();
    list.push(ColorSegment::with_val(1, 2, 3, false, Some("AB")).unwrap());
    let mut expected = vec![2u8, 0, 0, 0, 30, 0, 0, 0];
    expected.extend_from_slice(&[8, 0, 0, 0, 0, 0, 0, 0, 0, 0, 0, 0]);
    expected.extend_from_slice(&[14, 0, 0, 0, 1, 2, 3, 0xFF, 1, 0, 0, 0, 4, 0, 0x41, 0, 0x42, 0]);
    assert_eq!(bytes_of(&list), expected);
    assert_eq!(list.size_contents_in_cls(), 30);
    assert_eq!(list.size_in_cls(), 38);
    assert_eq!(list.checked_size_in_cls(), Some(38));

    let (rest, back) = ColorSegments::try_from_bytes(&expected).unwrap();
    assert!(rest.is_empty());
    assert_eq!(back, list);
}

#[test]
fn segment_list_decode_failures() {
    // no count, no size
    assert_eq!(ColorSegments::try_from_bytes(&[0, 0, 0]).unwrap_err(), DecodeError::TruncatedInput);
    assert_eq!(
        ColorSegments::try_from_bytes(&[1, 0, 0, 0, 0, 0]).unwrap_err(),
        DecodeError::TruncatedInput
    );
    // a zero count and no segment
    assert_eq!(
        ColorSegments::try_from_bytes(&[0, 0, 0, 0, 0, 0, 0, 0]).unwrap_err(),
        DecodeError::EmptySegmentList
    );
    // a count, but no segment
    assert_eq!(
        ColorSegments::try_from_bytes(&[3, 0, 0, 0, 0, 0, 0, 0]).unwrap_err(),
        DecodeError::EmptySegmentList
    );
    // nothing but a part of a segment
    assert_eq!(
        ColorSegments::try_from_bytes(&[1, 0, 0, 0, 0, 0, 0, 0, 8, 0, 0, 0, 1, 2]).unwrap_err(),
        DecodeError::EmptySegmentList
    );
    let one = [8u8, 0, 0, 0, 1, 2, 3, 0xFF, 0, 0, 0, 0];
    // two declared, one there
    let mut bytes = vec![2u8, 0, 0, 0, 12, 0, 0, 0];
    bytes.extend_from_slice(&one);
    assert_eq!(ColorSegments::try_from_bytes(&bytes).unwrap_err(), DecodeError::SegmentCountMismatch);
    // one declared, two there
    let mut bytes = vec![1u8, 0, 0, 0, 24, 0, 0, 0];
    bytes.extend_from_slice(&one);
    bytes.extend_from_slice(&one);
    assert_eq!(ColorSegments::try_from_bytes(&bytes).unwrap_err(), DecodeError::SegmentCountMismatch);
    // zero declared, one there
    let mut bytes = vec![0u8, 0, 0, 0, 12, 0, 0, 0];
    bytes.extend_from_slice(&one);
    assert_eq!(ColorSegments::try_from_bytes(&bytes).unwrap_err(), DecodeError::SegmentCountMismatch);
    // a segment whose name is no UTF-16 fails the list
    let mut bytes = vec![2u8, 0, 0, 0, 0, 0, 0, 0];
    bytes.extend_from_slice(&one);
    bytes.extend_from_slice(&[12, 0, 0, 0, 1, 2, 3, 0xFF, 1, 0, 0, 0, 2, 0, 0x00, 0xD8]);
    assert_eq!(ColorSegments::try_from_bytes(&bytes).unwrap_err(), DecodeError::InvalidUtf16);
}

#[test]
fn segment_list_leaves_a_broken_tail() {
    let mut bytes = vec![1u8, 0, 0, 0, 0xFF, 0xFF, 0xFF, 0xFF];
    bytes.extend_from_slice(&[8, 0, 0, 0, 1, 2, 3, 0xFF, 0, 0, 0, 0]);
    bytes.extend_from_slice(&[8, 0, 0]);
    let (rest, list) = ColorSegments::try_from_bytes(&bytes).unwrap();
    assert_eq!(list.len(), 1);
    assert_eq!(*list.get(0).unwrap(), ColorSegment::with_val(1, 2, 3, false, None).unwrap());
    assert_eq!(rest, [8, 0, 0]);
}

#[test]
fn colorset_name_limits() {
    let mut name = ColorsetName::new();
    assert_eq!(name.as_str(), "");
    // 192 bytes and 64 characters
    let fits = "\u{3042}".repeat(64);
    assert_eq!(name.set_str(&fits), Ok(()));
    assert_eq!(name.as_str(), fits);
    // 195 bytes
    assert_eq!(name.set_str(&"\u{3042}".repeat(65)), Err(ColorsetNameError::StringOver192Bytes));
    assert_eq!(name.as_str(), fits);
    // 193 bytes of one each
    assert_eq!(name.set_str(&"a".repeat(193)), Err(ColorsetNameError::StringOver192Bytes));
    // 65 characters in 65 bytes
    assert_eq!(name.set_str(&"a".repeat(65)), Err(ColorsetNameError::CharCountExceeded64));
    assert_eq!(name.as_str(), fits);
    // a character of four bytes counts as two: 33 of them count 66
    assert_eq!(name.set_str(&"\u{1F5FF}".repeat(33)), Err(ColorsetNameError::CharCountExceeded64));
    assert_eq!(name.set_str(&"\u{1F5FF}".repeat(32)), Ok(()));
    assert_eq!(name.set_str(&("a".repeat(63) + "\u{1F5FF}")), Err(ColorsetNameError::CharCountExceeded64));
    assert_eq!(name.set_str(&("a".repeat(62) + "\u{1F5FF}")), Ok(()));
    assert_eq!(ColorsetName::validate_str(&"a".repeat(64)), Ok(()));
    assert_eq!(ColorsetNameError::StringOver192Bytes.message(), "String is over 192 bytes.");
    assert_eq!(
        ColorsetNameError::CharCountExceeded64.message(),
        "Char count is exceeded 64.(A 4bytes utf8 char is counted 2 char.)"
    );
}

#[test]
fn colorset_name_bytes_layout() {
    let mut name = ColorsetName::new();
    name.set_str("A\u{3042}").unwrap();
    // Shift_JIS: 41, 82 A0; UTF-8: 41, E3 81 82
    let expected = [
        15, 0, 0, 0, 3, 0, 0x41, 0x82, 0xA0, 0, 0, 0, 0, 4, 0, 0x41, 0xE3, 0x81, 0x82,
    ];
    assert_eq!(bytes_of(&name), expected);
    assert_eq!(name.size_contents_in_cls(), 15);
    assert_eq!(name.size_in_cls(), 19);
    let (rest, back) = ColorsetName::try_from_bytes(&expected).unwrap();
    assert!(rest.is_empty());
    assert_eq!(back, name);
    assert_eq!(back.clone(), name);
}

#[test]
fn colorset_name_decode_skips_the_old_copy() {
    // a size header of no meaning, a copy that is no Shift_JIS, a delimiter that is not zero
    let bytes = [9, 9, 9, 9, 2, 0, 0xFF, 0xFF, 1, 2, 3, 4, 2, 0, 0x68, 0x69, 0x21];
    let (rest, name) = ColorsetName::try_from_bytes(&bytes).unwrap();
    assert_eq!(name.as_str(), "hi");
    assert_eq!(rest, [0x21]);
}

#[test]
fn colorset_name_decode_errors() {
    assert_eq!(ColorsetName::try_from_bytes(&[0, 0, 0]).unwrap_err(), DecodeError::TruncatedInput);
    assert_eq!(
        ColorsetName::try_from_bytes(&[0, 0, 0, 0, 5, 0, 1, 2]).unwrap_err(),
        DecodeError::TruncatedInput
    );
    assert_eq!(
        ColorsetName::try_from_bytes(&[0, 0, 0, 0, 0, 0, 0, 0, 0, 0, 3, 0, 0x41]).unwrap_err(),
        DecodeError::TruncatedInput
    );
    assert_eq!(
        ColorsetName::try_from_bytes(&[0, 0, 0, 0, 0, 0, 0, 0, 0, 0, 1, 0, 0xFF]).unwrap_err(),
        DecodeError::InvalidUtf8
    );
    // a character cut short
    assert_eq!(
        ColorsetName::try_from_bytes(&[0, 0, 0, 0, 0, 0, 0, 0, 0, 0, 2, 0, 0xE3, 0x81]).unwrap_err(),
        DecodeError::InvalidUtf8
    );
    let mut long = vec![0u8, 0, 0, 0, 0, 0, 0, 0, 0, 0, 193, 0];
    long.extend_from_slice(&[0x61; 193]);
    assert_eq!(ColorsetName::try_from_bytes(&long).unwrap_err(), DecodeError::TooLong);
    let mut many = vec![0u8, 0, 0, 0, 0, 0, 0, 0, 0, 0, 65, 0];
    many.extend_from_slice(&[0x61; 65]);
    assert_eq!(ColorsetName::try_from_bytes(&many).unwrap_err(), DecodeError::TooLong);
}

#[test]
fn new_colorset_bytes() {
    let colorset = Colorset::new();
    assert_eq!(colorset.get_colorset_name(), "NewColorset");
    let mut expected = vec![0x53u8, 0x4C, 0x43, 0x43, 0x00, 0x01];
    expected.extend_from_slice(&[30, 0, 0, 0, 11, 0]);
    expected.extend_from_slice(b"NewColorset");
    expected.extend_from_slice(&[0, 0, 0, 0, 11, 0]);
    expected.extend_from_slice(b"NewColorset");
    expected.extend_from_slice(&[4, 0, 0, 0]);
    expected.extend_from_slice(&[1, 0, 0, 0, 12, 0, 0, 0]);
    expected.extend_from_slice(&[8, 0, 0, 0, 0, 0, 0, 0, 0, 0, 0, 0]);
    assert_eq!(colorset.as_bytes().as_ref(), expected.as_slice());
    assert_eq!(bytes_of(&colorset), expected);
    assert_eq!(colorset.size_in_cls() as usize, expected.len());
    assert_eq!(colorset.size_contents_in_cls() as usize, expected.len());
    assert_eq!(colorset.checked_size_in_cls(), Some(expected.len() as u32));
    assert_eq!(encode(&colorset).unwrap().as_ref(), expected.as_slice());
    assert_eq!(decode(&expected).unwrap(), colorset);
}

#[test]
fn colorset_round_trip_normalizes_transparent_colors() {
    let mut colorset = Colorset::new();
    colorset.set_colorset_name(Some("\u{3400}test\u{1f5ff}set")).unwrap();
    colorset.add_color_segment("red", "#FF0000", false).unwrap();
    colorset.add_color_segment("", "00ff00", false).unwrap();
    colorset.add_color_segment("glass \u{1F5FF}", "#123", true).unwrap();

    let bytes = colorset.as_bytes();
    let back = decode(bytes.as_ref()).unwrap();
    // the red, green and blue behind a transparent colour do not come back
    assert_ne!(back, colorset);
    colorset.set_color_rgb(0, 0, 0, 3);
    assert_eq!(back, colorset);
    // and what came back is written as it was read
    assert_eq!(back.as_bytes(), bytes);
}

#[test]
fn decode_passes_over_header_and_reserved_field() {
    let mut bytes = Colorset::new().as_bytes().as_ref().to_vec();
    for b in bytes.iter_mut().take(6) {
        *b = 0xEE;
    }
    let reserved = 6 + 4 + 2 + 11 + 4 + 2 + 11;
    bytes[reserved] = 0x77;
    assert_eq!(decode(&bytes).unwrap(), Colorset::new());
    assert_eq!(decode(&bytes[..5]).unwrap_err(), DecodeError::TruncatedInput);
    assert_eq!(decode(&bytes[..reserved + 2]).unwrap_err(), DecodeError::TruncatedInput);
    assert_eq!(decode(&bytes[..reserved + 12]).unwrap_err(), DecodeError::EmptySegmentList);
}

#[test]
fn colorset_editing() {
    let mut colorset = Colorset::new();
    assert_eq!(colorset.set_colorset_name(None), Ok(()));
    assert_eq!(colorset.get_colorset_name(), "UserColorset");
    assert_eq!(colorset.set_colorset_name(Some("mine")), Ok(()));
    assert_eq!(colorset.get_colorset_name(), "mine");
    assert_eq!(colorset.set_colorset_name(Some("")), Ok(()));
    assert_eq!(colorset.get_colorset_name(), "UserColorset");
    assert_eq!(
        colorset.set_colorset_name(Some(&"a".repeat(65))),
        Err(ColorsetNameError::CharCountExceeded64)
    );
    assert_eq!(colorset.get_colorset_name(), "UserColorset");

    assert_eq!(colorset.set_color_name("first", 0), Ok(()));
    assert_eq!(colorset.set_color_name("first", 1), Err(ColorsetError::SegmentNotFound));
    assert_eq!(
        colorset.set_color_name(&"a".repeat(65), 0),
        Err(ColorsetError::ColorName(ColorNameError::EncodedStringOver128Bytes))
    );
    assert_eq!(colorset.set_color_name(&"a".repeat(65), 1), Err(ColorsetError::SegmentNotFound));

    assert_eq!(colorset.set_color_hex("#102030", 0), Ok(Color::new(0x10, 0x20, 0x30, true)));
    assert_eq!(
        colorset.set_color_hex("#1020", 0),
        Err(ColorsetError::HexColor(ParseHexColorError::InvalidFormat))
    );
    assert_eq!(
        colorset.set_color_hex("#1020", 5),
        Err(ColorsetError::HexColor(ParseHexColorError::InvalidFormat))
    );
    assert_eq!(colorset.set_color_hex("#102030", 5), Err(ColorsetError::SegmentNotFound));
    colorset.set_color_transparency(false, 0);

    assert_eq!(
        colorset.add_color_segment("second", "zzz", false),
        Err(ColorsetError::HexColor(ParseHexColorError::InvalidDigit))
    );
    assert_eq!(
        colorset.add_color_segment(&"a".repeat(65), "fff", false),
        Err(ColorsetError::ColorName(ColorNameError::EncodedStringOver128Bytes))
    );
    assert_eq!(colorset.add_color_segment("second", "fff", true), Ok(()));
    colorset.set_color_rgb(1, 2, 3, 1);

    let mut expected = Colorset::new();
    expected.set_colorset_name(None).unwrap();
    expected.remove_color_segment(0).unwrap();
    expected.add_color_segment("first", "102030", false).unwrap();
    expected.add_color_segment("second", "#010203", true).unwrap();
    assert_eq!(colorset, expected);

    assert_eq!(colorset.set_color_name("", 1), Ok(()));
    assert_eq!(colorset.remove_color_segment(2), Err(ColorSegmentsError::RemoveIndexError));
    assert_eq!(colorset.remove_color_segment(0), Ok(()));
    expected = Colorset::new();
    expected.set_colorset_name(None).unwrap();
    expected.set_color_rgb(1, 2, 3, 0);
    assert_eq!(colorset, expected);

    assert!(Colorset::validate_color_name(&"a".repeat(64)).is_ok());
    assert!(Colorset::validate_color_name(&"a".repeat(65)).is_err());
}

#[test]
fn empty_colorset_is_written_but_not_read() {
    let mut colorset = Colorset::new();
    colorset.remove_color_segment(0).unwrap();
    let bytes = encode(&colorset).unwrap();
    assert_eq!(decode(bytes.as_ref()).unwrap_err(), DecodeError::EmptySegmentList);
}

#[test]
fn decode_error_messages() {
    assert_eq!(DecodeError::EmptySegmentList.message(), "Color segments is empty!");
    assert_eq!(DecodeError::SegmentCountMismatch.message(), "Error in read color segments");
    let all = [
        DecodeError::TruncatedInput,
        DecodeError::InvalidUtf16,
        DecodeError::InvalidUtf8,
        DecodeError::TooLong,
        DecodeError::EmptySegmentList,
        DecodeError::SegmentCountMismatch,
    ];
    for (i, a) in all.iter().enumerate() {
        for b in &all[i + 1..] {
            assert_ne!(a.message(), b.message());
        }
    }
}
