//! UTF-16, the encoding in which colour names are stored: a character below
//! U+10000 is one 16-bit unit, any other is a surrogate pair, and every unit is
//! written low byte first.

use vstd::prelude::*;
use vstd::utf8::char_u32_cast;

verus! {

/// The one or two code units that stand for `c`.
pub open spec fn utf16_units(c: char) -> Seq<u16> {
    let v = c as u32;
    if v < 0x10000 {
        seq![v as u16]
    } else {
        seq![(0xD800 + (v - 0x10000) / 0x400) as u16, (0xDC00 + (v - 0x10000) % 0x400) as u16]
    }
}

/// The code units of a text, character after character.
pub open spec fn encode_utf16(text: Seq<char>) -> Seq<u16>
    decreases text.len(),
{
    if text.len() == 0 {
        seq![]
    } else {
        utf16_units(text[0]) + encode_utf16(text.drop_first())
    }
}

/// The units written out as bytes, two for each, low byte first.
pub open spec fn utf16_le_bytes(units: Seq<u16>) -> Seq<u8> {
    Seq::new(
        2 * units.len(),
        |i: int|
            if i % 2 == 0 {
                (units[i / 2] % 256) as u8
            } else {
                (units[i / 2] / 256) as u8
            },
    )
}

/// The units that a run of bytes spells, two bytes for each, low byte first.
/// A last odd byte is left out.
pub open spec fn units_of_le_bytes(bytes: Seq<u8>) -> Seq<u16> {
    Seq::new(bytes.len() / 2, |i: int| (bytes[2 * i] + 256 * bytes[2 * i + 1]) as u16)
}

/// True of a unit that is no surrogate and so stands for a character alone.
pub open spec fn is_single_unit(u: u16) -> bool {
    u < 0xD800 || 0xE000 <= u
}

/// True of a unit that opens a surrogate pair.
pub open spec fn is_high_surrogate(u: u16) -> bool {
    0xD800 <= u < 0xDC00
}

/// True of a unit that closes a surrogate pair.
pub open spec fn is_low_surrogate(u: u16) -> bool {
    0xDC00 <= u < 0xE000
}

/// The character that a surrogate pair stands for.
pub open spec fn pair_value(high: u16, low: u16) -> u32 {
    (0x10000 + (high - 0xD800) * 0x400 + (low - 0xDC00)) as u32
}

/// The text that the units spell, or `None` where a surrogate stands unpaired.
pub open spec fn decode_utf16(units: Seq<u16>) -> Option<Seq<char>>
    decreases units.len(),
{
    if units.len() == 0 {
        Some(seq![])
    } else if is_single_unit(units[0]) {
        prepend(seq![units[0] as char], decode_utf16(units.skip(1)))
    } else if is_high_surrogate(units[0]) && units.len() >= 2 && is_low_surrogate(units[1]) {
        prepend(seq![pair_value(units[0], units[1]) as char], decode_utf16(units.skip(2)))
    } else {
        None
    }
}

/// `head` put in front of a text that may be missing.
pub open spec fn prepend(head: Seq<char>, tail: Option<Seq<char>>) -> Option<Seq<char>> {
    match tail {
        Some(t) => Some(head + t),
        None => None,
    }
}

/// The units of two texts joined are the units of the first, then of the second.
pub proof fn lemma_encode_utf16_concat(a: Seq<char>, b: Seq<char>)
    ensures
        encode_utf16(a + b) == encode_utf16(a) + encode_utf16(b),
    decreases a.len(),
{
    if a.len() == 0 {
        assert(a + b =~= b);
        assert(encode_utf16(a) + encode_utf16(b) =~= encode_utf16(b));
    } else {
        assert((a + b).drop_first() =~= a.drop_first() + b);
        lemma_encode_utf16_concat(a.drop_first(), b);
        assert(encode_utf16(a + b) =~= encode_utf16(a) + encode_utf16(b));
    }
}

/// Encoding one more character appends its units.
pub proof fn lemma_encode_utf16_push(text: Seq<char>, c: char)
    ensures
        encode_utf16(text.push(c)) == encode_utf16(text) + utf16_units(c),
{
    lemma_encode_utf16_concat(text, seq![c]);
    assert(text.push(c) =~= text + seq![c]);
    assert(seq![c].drop_first() =~= Seq::<char>::empty());
    assert(encode_utf16(seq![c].drop_first()) =~= Seq::<u16>::empty());
    assert(encode_utf16(seq![c]) =~= utf16_units(c));
}

/// A part of a text has no more units than the whole.
pub proof fn lemma_encode_utf16_prefix(text: Seq<char>, k: int)
    requires
        0 <= k <= text.len(),
    ensures
        encode_utf16(text.take(k)).len() <= encode_utf16(text).len(),
{
    lemma_encode_utf16_concat(text.take(k), text.skip(k));
    assert(text.take(k) + text.skip(k) =~= text);
}

/// The bytes of two runs of units are the bytes of the first, then of the second.
pub proof fn lemma_utf16_le_bytes_concat(a: Seq<u16>, b: Seq<u16>)
    ensures
        utf16_le_bytes(a + b) == utf16_le_bytes(a) + utf16_le_bytes(b),
{
    assert(utf16_le_bytes(a + b) =~= utf16_le_bytes(a) + utf16_le_bytes(b)) by {
        assert forall|i: int| 0 <= i < 2 * (a.len() + b.len()) implies utf16_le_bytes(a + b)[i] == (
        utf16_le_bytes(a) + utf16_le_bytes(b))[i] by {
            if i < 2 * a.len() {
                assert((a + b)[i / 2] == a[i / 2]);
            } else {
                assert((i - 2 * a.len()) / 2 == i / 2 - a.len());
                assert((i - 2 * a.len()) % 2 == i % 2);
                assert((a + b)[i / 2] == b[i / 2 - a.len()]);
            }
        }
    }
}

/// Reading back the bytes of a run of units gives the units.
pub proof fn lemma_units_of_le_bytes(units: Seq<u16>)
    ensures
        units_of_le_bytes(utf16_le_bytes(units)) == units,
{
    let bytes = utf16_le_bytes(units);
    assert(units_of_le_bytes(bytes) =~= units) by {
        assert forall|i: int| 0 <= i < units.len() implies units_of_le_bytes(bytes)[i]
            == units[i] by {
            assert((2 * i) / 2 == i && (2 * i) % 2 == 0);
            assert((2 * i + 1) / 2 == i && (2 * i + 1) % 2 == 1);
        }
    }
}

/// Decoding the units of `head` followed by `rest` gives `head`, then what
/// `rest` decodes to.
proof fn lemma_decode_utf16_units(c: char, rest: Seq<u16>)
    ensures
        decode_utf16(utf16_units(c) + rest) == prepend(seq![c], decode_utf16(rest)),
{
    let units = utf16_units(c) + rest;
    let v = c as u32;
    if v < 0x10000 {
        assert(units[0] == v as u16);
        assert(is_single_unit(units[0]));
        assert(units.skip(1) =~= rest);
        char_u32_cast(c, v);
        assert(units[0] as char == c);
    } else {
        let high = units[0];
        let low = units[1];
        assert(high == (0xD800 + (v - 0x10000) / 0x400) as u16);
        assert(low == (0xDC00 + (v - 0x10000) % 0x400) as u16);
        assert(is_high_surrogate(high) && is_low_surrogate(low));
        assert(units.skip(2) =~= rest);
        assert(pair_value(high, low) == v);
        char_u32_cast(c, v);
    }
}

/// Decoding what a text encodes to gives the text back.
pub proof fn lemma_decode_encode_utf16(text: Seq<char>)
    ensures
        decode_utf16(encode_utf16(text)) == Some(text),
    decreases text.len(),
{
    if text.len() > 0 {
        lemma_decode_utf16_units(text[0], encode_utf16(text.drop_first()));
        lemma_decode_encode_utf16(text.drop_first());
        assert(seq![text[0]] + text.drop_first() =~= text);
    }
}

/// Putting one more character behind the head of a text that may be missing.
proof fn lemma_prepend_push(head: Seq<char>, c: char, tail: Option<Seq<char>>)
    ensures
        prepend(head, prepend(seq![c], tail)) == prepend(head.push(c), tail),
{
    if let Some(t) = tail {
        assert(head + (seq![c] + t) =~= head.push(c) + t);
    }
}

/// Counts the UTF-16 code units of `s`, giving up as soon as there are more
/// than `limit`.
pub fn utf16_len_within(s: &str, limit: usize) -> (r: Option<usize>)
    requires
        limit <= usize::MAX - 2,
    ensures
        r == if encode_utf16(s@).len() <= limit {
            Some(encode_utf16(s@).len() as usize)
        } else {
            None
        },
{
    let mut n: usize = 0;
    for c in it: s.chars()
        invariant
            it.seq() == s@,
            n == encode_utf16(s@.take(it.index() as int)).len(),
            n <= limit <= usize::MAX - 2,
    {
        proof {
            let i = it.index() as int;
            assert(s@.take(i + 1) =~= s@.take(i).push(c));
            lemma_encode_utf16_push(s@.take(i), c);
            lemma_encode_utf16_prefix(s@, i + 1);
        }
        let step: usize = if (c as u32) < 0x10000 {
            1
        } else {
            2
        };
        if n + step > limit {
            return None;
        }
        n = n + step;
    }
    proof {
        assert(s@.take(s@.len() as int) =~= s@);
    }
    Some(n)
}

/// Appends one code unit to `out`, low byte first.
fn push_unit_le(unit: u16, out: &mut Vec<u8>)
    ensures
        final(out)@ == old(out)@ + utf16_le_bytes(seq![unit]),
{
    out.push((unit % 256) as u8);
    out.push((unit / 256) as u8);
    proof {
        assert(final(out)@ =~= old(out)@ + utf16_le_bytes(seq![unit]));
    }
}

/// Appends the UTF-16 code units of `s` to `out`, each low byte first.
pub fn push_utf16_le(s: &str, out: &mut Vec<u8>)
    ensures
        final(out)@ == old(out)@ + utf16_le_bytes(encode_utf16(s@)),
{
    proof {
        assert(out@ =~= old(out)@ + utf16_le_bytes(encode_utf16(s@.take(0))));
    }
    for c in it: s.chars()
        invariant
            it.seq() == s@,
            out@ == old(out)@ + utf16_le_bytes(encode_utf16(s@.take(it.index() as int))),
    {
        let ghost before = encode_utf16(s@.take(it.index() as int));
        proof {
            let i = it.index() as int;
            assert(s@.take(i + 1) =~= s@.take(i).push(c));
            lemma_encode_utf16_push(s@.take(i), c);
        }
        let v: u32 = c as u32;
        if v < 0x10000 {
            push_unit_le(v as u16, out);
            proof {
                lemma_utf16_le_bytes_concat(before, seq![v as u16]);
            }
        } else {
            let w: u32 = v - 0x10000;
            let high: u16 = (0xD800 + w / 0x400) as u16;
            let low: u16 = (0xDC00 + w % 0x400) as u16;
            push_unit_le(high, out);
            push_unit_le(low, out);
            proof {
                lemma_utf16_le_bytes_concat(seq![high], seq![low]);
                assert(seq![high] + seq![low] =~= seq![high, low]);
                lemma_utf16_le_bytes_concat(before, seq![high, low]);
            }
        }
        proof {
            assert(out@ =~= old(out)@ + utf16_le_bytes(before + utf16_units(c)));
        }
    }
    proof {
        assert(s@.take(s@.len() as int) =~= s@);
    }
}

/// Reads a text from UTF-16 code units written low byte first. There is none
/// where the bytes do not pair up into units, or a surrogate stands unpaired.
pub fn string_from_utf16_le(bytes: &[u8]) -> (r: Option<String>)
    ensures
        r is Some <==> bytes@.len() % 2 == 0 && decode_utf16(units_of_le_bytes(bytes@)) is Some,
        r matches Some(s) ==> decode_utf16(units_of_le_bytes(bytes@)) == Some(s@),
{
    if bytes.len() % 2 != 0 {
        return None;
    }
    let ghost units = units_of_le_bytes(bytes@);
    let n: usize = bytes.len() / 2;
    let mut text = String::new();
    let mut i: usize = 0;
    proof {
        assert(units.skip(0) =~= units);
        if let Some(t) = decode_utf16(units) {
            assert(text@ + t =~= t);
        }
    }
    while i < n
        invariant
            i <= n,
            n == units.len(),
            2 * n == bytes@.len() <= usize::MAX,
            units == units_of_le_bytes(bytes@),
            decode_utf16(units) == prepend(text@, decode_utf16(units.skip(i as int))),
        decreases n - i,
    {
        let ghost tail = units.skip(i as int);
        let unit: u16 = bytes[2 * i] as u16 + 256 * (bytes[2 * i + 1] as u16);
        assert(unit == tail[0]);
        if unit < 0xD800 || unit >= 0xE000 {
            match char::from_u32(unit as u32) {
                Some(c) => {
                    proof {
                        char_u32_cast(c, unit as u32);
                        assert(tail.skip(1) =~= units.skip(i + 1));
                        lemma_prepend_push(text@, c, decode_utf16(units.skip(i + 1)));
                    }
                    text.push(c);
                    i = i + 1;
                },
                None => {
                    return None;
                },
            }
        } else if unit < 0xDC00 && i + 1 < n {
            let low: u16 = bytes[2 * i + 2] as u16 + 256 * (bytes[2 * i + 3] as u16);
            assert(low == tail[1]);
            if low < 0xDC00 || low >= 0xE000 {
                return None;
            }
            let v: u32 = 0x10000 + (unit as u32 - 0xD800) * 0x400 + (low as u32 - 0xDC00);
            match char::from_u32(v) {
                Some(c) => {
                    proof {
                        char_u32_cast(c, v);
                        assert(tail.skip(2) =~= units.skip(i + 2));
                        lemma_prepend_push(text@, c, decode_utf16(units.skip(i + 2)));
                    }
                    text.push(c);
                    i = i + 2;
                },
                None => {
                    return None;
                },
            }
        } else {
            return None;
        }
    }
    proof {
        assert(units.skip(n as int) =~= Seq::<u16>::empty());
        assert(text@ + Seq::<char>::empty() =~= text@);
    }
    Some(text)
}

} // verus!
