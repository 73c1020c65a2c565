use cls_rs::colorset_name::ColorsetName;
use cls_rs::sjis::{encode_sjis, len_utf8, push_sjis_piece, SjisOutcome};
use cls_rs::utf16::{push_utf16_le, string_from_utf16_le, utf16_len_within};

#[test]
fn utf16_length() {
    assert_eq!(utf16_len_within("", 0), Some(0));
    assert_eq!(utf16_len_within("abc", 3), Some(3));
    assert_eq!(utf16_len_within("abc", 2), None);
    assert_eq!(utf16_len_within("a\u{1F5FF}\u{3042}", 4), Some(4));
    assert_eq!(utf16_len_within("a\u{1F5FF}\u{3042}", 3), None);
    assert_eq!(utf16_len_within("\u{FFFF}\u{10000}", 64), Some(3));
}

#[test]
fn utf16_bytes() {
    let mut out = vec![9u8];
    push_utf16_le("A\u{3042}\u{1F5FF}\u{10FFFF}\u{FFFF}", &mut out);
    assert_eq!(
        out,
        [9, 0x41, 0x00, 0x42, 0x30, 0x3D, 0xD8, 0xFF, 0xDD, 0xFF, 0xDB, 0xFF, 0xDF, 0xFF, 0xFF]
    );
}

#[test]
fn utf16_reading() {
    assert_eq!(string_from_utf16_le(&[]), Some(String::new()));
    assert_eq!(
        string_from_utf16_le(&[0x41, 0x00, 0x42, 0x30, 0x3D, 0xD8, 0xFF, 0xDD, 0xFF, 0xD7, 0x00, 0xE0]),
        Some("A\u{3042}\u{1F5FF}\u{D7FF}\u{E000}".to_string())
    );
    assert_eq!(string_from_utf16_le(&[0x00, 0xD8, 0x00, 0xDC]), Some("\u{10000}".to_string()));
    assert_eq!(string_from_utf16_le(&[0xFF, 0xDB, 0xFF, 0xDF]), Some("\u{10FFFF}".to_string()));
    assert_eq!(string_from_utf16_le(&[0x41]), None);
    assert_eq!(string_from_utf16_le(&[0x00, 0xD8]), None);
    assert_eq!(string_from_utf16_le(&[0x00, 0xDC]), None);
    assert_eq!(string_from_utf16_le(&[0x00, 0xD8, 0x00, 0xD8]), None);
    assert_eq!(string_from_utf16_le(&[0x00, 0xDC, 0x00, 0xD8]), None);
}

#[test]
fn utf8_widths() {
    assert_eq!(len_utf8('a'), 1);
    assert_eq!(len_utf8('\u{7F}'), 1);
    assert_eq!(len_utf8('\u{80}'), 2);
    assert_eq!(len_utf8('\u{7FF}'), 2);
    assert_eq!(len_utf8('\u{800}'), 3);
    assert_eq!(len_utf8('\u{FFFF}'), 3);
    assert_eq!(len_utf8('\u{10000}'), 4);
    assert_eq!(len_utf8('\u{10FFFF}'), 4);
}

#[test]
fn sjis_of_what_shift_jis_has() {
    assert_eq!(encode_sjis(""), []);
    assert_eq!(encode_sjis("Az~"), [0x41, 0x7A, 0x7E]);
    assert_eq!(encode_sjis("\u{3042}"), [0x82, 0xA0]);
    assert_eq!(encode_sjis("\u{30A2}\u{FF71}\u{4E9C}"), [0x83, 0x41, 0xB1, 0x88, 0x9F]);
    assert_eq!(encode_sjis("\u{A5}"), [0x5C]);
    let text = "Color \u{8272}\u{898B}\u{672C} \u{FF11}\u{3001}test";
    let (expected, _, had_errors) = encoding_rs::SHIFT_JIS.encode(text);
    assert!(!had_errors);
    assert_eq!(encode_sjis(text), expected.as_ref());
}

#[test]
fn sjis_fallback_spaces() {
    // four bytes in UTF-8: two spaces
    assert_eq!(encode_sjis("ab\u{1F5FF}cd"), [0x61, 0x62, 0x20, 0x20, 0x63, 0x64]);
    // three bytes and two bytes: one space
    assert_eq!(encode_sjis("ab\u{3400}cd"), [0x61, 0x62, 0x20, 0x63, 0x64]);
    assert_eq!(encode_sjis("ab\u{DF}cd"), [0x61, 0x62, 0x20, 0x63, 0x64]);
    assert_eq!(
        encode_sjis("\u{3400}test\u{1f5ff}set\u{0414}"),
        [0x20, 0x74, 0x65, 0x73, 0x74, 0x20, 0x20, 0x73, 0x65, 0x74, 0x84, 0x44]
    );
    let mut name = ColorsetName::new();
    name.set_str("\u{1F5FF}\u{1F5FF}").unwrap();
    assert_eq!(name.encode_sjis(), [0x20, 0x20, 0x20, 0x20]);
}

#[test]
fn sjis_piece_by_outcome() {
    let mut out = vec![1u8];
    push_sjis_piece(SjisOutcome::InputEmpty, &[0x82, 0xA0], &mut out);
    assert_eq!(out, [1, 0x82, 0xA0]);
    push_sjis_piece(SjisOutcome::Unmappable('\u{1F5FF}'), &[], &mut out);
    assert_eq!(out, [1, 0x82, 0xA0, 0x20, 0x20]);
    push_sjis_piece(SjisOutcome::Unmappable('\u{3400}'), &[7, 7], &mut out);
    assert_eq!(out, [1, 0x82, 0xA0, 0x20, 0x20, 0x20]);
    push_sjis_piece(SjisOutcome::Unmappable('\u{DF}'), &[], &mut out);
    assert_eq!(out, [1, 0x82, 0xA0, 0x20, 0x20, 0x20, 0x20]);
    push_sjis_piece(SjisOutcome::OutputFull, &[5], &mut out);
    assert_eq!(out, [1, 0x82, 0xA0, 0x20, 0x20, 0x20, 0x20, 5]);
}

/// The whole text handed to one encoder, which stops at each character that
/// Shift_JIS does not have and goes on behind the spaces put in for it.
fn sjis_in_runs(text: &str) -> Vec<u8> {
    let mut encoder = encoding_rs::SHIFT_JIS.new_encoder();
    let mut out: Vec<u8> = Vec::with_capacity(text.chars().count() * 2);
    let mut input = text;
    loop {
        let (result, read) = encoder.encode_from_utf8_to_vec_without_replacement(input, &mut out, true);
        match result {
            encoding_rs::EncoderResult::InputEmpty => break,
            encoding_rs::EncoderResult::OutputFull => panic!("no room"),
            encoding_rs::EncoderResult::Unmappable(c) => {
                for _ in 0..(if c.len_utf8() == 4 { 2 } else { 1 }) {
                    out.push(0x20);
                }
                input = &input[read..];
            }
        }
    }
    out
}

#[test]
fn sjis_by_character_is_sjis_in_runs() {
    let long = "\u{3042}".repeat(64);
    let mixed = "t".repeat(62) + "\u{1f5ff}";
    let texts = [
        "",
        "NewColorset",
        "\u{3400}test\u{1f5ff}set\u{0414}",
        "\u{1f5ff}testset",
        "\u{DF}test\u{3400}",
        "\u{1f5ff}\u{1f5ff}\u{3400}\u{3400}",
        "\u{FF76}\u{FF9E}\u{30AC}\u{2212}\u{203E}\u{A5}\u{80}\u{2170}\u{FA0E}\u{F929}",
        "\\~\u{7F}\u{0}\u{FFFD}\u{E000}\u{10FFFF}",
        long.as_str(),
        mixed.as_str(),
    ];
    for text in texts {
        assert_eq!(encode_sjis(text), sjis_in_runs(text), "{:?}", text);
    }
}

#[test]
fn sjis_by_character_is_sjis_in_runs_for_every_character() {
    let mut text = String::new();
    for v in 0..=0x10FFFFu32 {
        if let Some(c) = char::from_u32(v) {
            text.push(c);
            if text.len() >= 4096 {
                assert_eq!(encode_sjis(&text), sjis_in_runs(&text));
                text.clear();
            }
        }
    }
    assert_eq!(encode_sjis(&text), sjis_in_runs(&text));
}
