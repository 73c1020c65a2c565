//! The Shift_JIS copy of a colour set's name. The file keeps it beside the
//! UTF-8 name for old readers. It is made character by character with the
//! encoder of `encoding_rs`, and a character that has no Shift_JIS form is
//! replaced by spaces: two where it takes four bytes in UTF-8, one otherwise.

use vstd::prelude::*;
use vstd::utf8::encode_scalar;

verus! {

/// How the encoder ended.
#[derive(Debug, PartialEq, Eq, Clone, Copy, Structural)]
pub enum SjisOutcome {
    /// It took all its input.
    InputEmpty,
    /// It ran out of room.
    OutputFull,
    /// It met this character, which Shift_JIS does not have.
    Unmappable(char),
}

/// What the Shift_JIS encoder of `encoding_rs` makes of the one character `c`
/// when it has five bytes of room: how it ends, and the bytes it writes.
pub uninterp spec fn shift_jis_of(c: char) -> (SjisOutcome, Seq<u8>);

/// Calls `Encoder::encode_from_utf8_without_replacement` of `encoding_rs`, on a
/// new encoder for `SHIFT_JIS`, with `c` as the whole input and five bytes of
/// room. Taken on trust: the outcome and the bytes written depend on `c`
/// alone; no more is written than there is room for; and the encoder does not
/// run out of room, which the crate promises of a buffer one byte longer than
/// the input, and a character takes at most four bytes.
#[verifier::external_body]
fn shift_jis_encode(c: char) -> (r: (SjisOutcome, Vec<u8>))
    ensures
        (r.0, r.1@) == shift_jis_of(c),
        r.0 != SjisOutcome::OutputFull,
        r.1@.len() <= 5,
{
    let mut src = [0u8; 4];
    let mut dst = [0u8; 5];
    let mut encoder = encoding_rs::SHIFT_JIS.new_encoder();
    let (result, _, n) = encoder.encode_from_utf8_without_replacement(
        c.encode_utf8(&mut src),
        &mut dst,
        true,
    );
    let outcome = match result {
        encoding_rs::EncoderResult::InputEmpty => SjisOutcome::InputEmpty,
        encoding_rs::EncoderResult::OutputFull => SjisOutcome::OutputFull,
        encoding_rs::EncoderResult::Unmappable(u) => SjisOutcome::Unmappable(u),
    };
    (outcome, dst[..n].to_vec())
}

/// The number of bytes that `c` takes in UTF-8.
pub open spec fn utf8_width(c: char) -> nat {
    encode_scalar(c as u32).len()
}

/// The spaces that stand in for a character without a Shift_JIS form.
pub open spec fn substitute(c: char) -> Seq<u8> {
    if utf8_width(c) == 4 {
        seq![0x20u8, 0x20u8]
    } else {
        seq![0x20u8]
    }
}

/// What goes into the Shift_JIS copy for a character, given how the encoder
/// ended on it and what it wrote: the spaces for the character that it could
/// not encode, or else what it wrote.
pub open spec fn sjis_piece(outcome: SjisOutcome, bytes: Seq<u8>) -> Seq<u8> {
    match outcome {
        SjisOutcome::Unmappable(c) => substitute(c),
        _ => bytes,
    }
}

/// What goes into the Shift_JIS copy for `c`.
pub open spec fn sjis_char(c: char) -> Seq<u8> {
    sjis_piece(shift_jis_of(c).0, shift_jis_of(c).1)
}

/// The Shift_JIS copy of a text: what goes in for each character, in order.
pub open spec fn sjis_lossy(text: Seq<char>) -> Seq<u8>
    decreases text.len(),
{
    if text.len() == 0 {
        seq![]
    } else {
        sjis_char(text[0]) + sjis_lossy(text.drop_first())
    }
}

/// The copy of two texts joined is the copy of the first, then of the second.
pub proof fn lemma_sjis_lossy_concat(a: Seq<char>, b: Seq<char>)
    ensures
        sjis_lossy(a + b) == sjis_lossy(a) + sjis_lossy(b),
    decreases a.len(),
{
    if a.len() == 0 {
        assert(a + b =~= b);
        assert(sjis_lossy(a) + sjis_lossy(b) =~= sjis_lossy(b));
    } else {
        assert((a + b).drop_first() =~= a.drop_first() + b);
        lemma_sjis_lossy_concat(a.drop_first(), b);
        assert(sjis_lossy(a + b) =~= sjis_lossy(a) + sjis_lossy(b));
    }
}

/// The copy of a text of one character is what goes in for that character.
pub proof fn lemma_sjis_lossy_one(c: char)
    ensures
        sjis_lossy(seq![c]) == sjis_char(c),
{
    assert(seq![c].drop_first() =~= Seq::<char>::empty());
    assert(sjis_lossy(seq![c].drop_first()) =~= Seq::<u8>::empty());
    assert(sjis_lossy(seq![c]) =~= sjis_char(c));
}

/// A character that the encoder reports as one that Shift_JIS does not have
/// leaves spaces in the copy at its place, between the copy of the text
/// before it and that of the text after it: two spaces where it takes four
/// bytes in UTF-8, and one otherwise.
pub proof fn lemma_sjis_lossy_unmappable(before: Seq<char>, c: char, after: Seq<char>)
    ensures
        shift_jis_of(c).0 == SjisOutcome::Unmappable(c) ==> sjis_lossy(before + seq![c] + after)
            == sjis_lossy(before) + substitute(c) + sjis_lossy(after),
        substitute(c) == if utf8_width(c) == 4 {
            seq![0x20u8, 0x20u8]
        } else {
            seq![0x20u8]
        },
{
    lemma_sjis_lossy_concat(before + seq![c], after);
    lemma_sjis_lossy_concat(before, seq![c]);
    lemma_sjis_lossy_one(c);
}

/// The number of bytes that `c` takes in UTF-8.
pub fn len_utf8(c: char) -> (n: usize)
    ensures
        n == utf8_width(c),
        1 <= n <= 4,
{
    let v: u32 = c as u32;
    if v < 0x80 {
        1
    } else if v < 0x800 {
        2
    } else if v < 0x10000 {
        3
    } else {
        4
    }
}

/// Appends to `out` what goes into the Shift_JIS copy for a character, given
/// how the encoder ended on it and what it wrote.
pub fn push_sjis_piece(outcome: SjisOutcome, bytes: &[u8], out: &mut Vec<u8>)
    ensures
        final(out)@ == old(out)@ + sjis_piece(outcome, bytes@),
{
    match outcome {
        SjisOutcome::Unmappable(c) => {
            match len_utf8(c) {
                4 => {
                    out.push(0x20);
                    out.push(0x20);
                },
                _ => {
                    out.push(0x20);
                },
            }
        },
        _ => {
            let mut i: usize = 0;
            while i < bytes.len()
                invariant
                    i <= bytes@.len(),
                    out@ == old(out)@ + bytes@.take(i as int),
                decreases bytes@.len() - i,
            {
                out.push(bytes[i]);
                i = i + 1;
                proof {
                    assert(out@ =~= old(out)@ + bytes@.take(i as int));
                }
            }
            proof {
                assert(bytes@.take(i as int) =~= bytes@);
            }
        },
    }
    proof {
        assert(final(out)@ =~= old(out)@ + sjis_piece(outcome, bytes@));
    }
}

/// Encodes `text` to Shift_JIS, with spaces for what Shift_JIS does not have.
pub fn encode_sjis(text: &str) -> (out: Vec<u8>)
    ensures
        out@ == sjis_lossy(text@),
        out@.len() <= 5 * text@.len(),
{
    let mut out: Vec<u8> = Vec::new();
    for c in it: text.chars()
        invariant
            it.seq() == text@,
            out@ == sjis_lossy(text@.take(it.index() as int)),
            out@.len() <= 5 * it.index(),
    {
        proof {
            let i = it.index() as int;
            assert(text@.take(i + 1) =~= text@.take(i) + seq![c]);
            lemma_sjis_lossy_concat(text@.take(i), seq![c]);
            lemma_sjis_lossy_one(c);
        }
        let (outcome, bytes) = shift_jis_encode(c);
        push_sjis_piece(outcome, bytes.as_slice(), &mut out);
    }
    proof {
        assert(text@.take(text@.len() as int) =~= text@);
    }
    out
}

} // verus!
