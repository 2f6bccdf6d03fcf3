use vstd::prelude::*;
use vstd::slice::{slice_subrange, slice_to_vec};
use crate::text::chars_of;

verus! {

/// The 16-bit units that UTF-16 writes one character with.
pub open spec fn char_units(c: char) -> Seq<u16> {
    let n = c as u32;
    if n < 0x10000 {
        seq![n as u16]
    } else {
        seq![
            (0xd800 + (n - 0x10000) / 0x400) as u16,
            (0xdc00 + (n - 0x10000) % 0x400) as u16,
        ]
    }
}

/// A text in UTF-16.
pub open spec fn utf16(text: Seq<char>) -> Seq<u16>
    decreases text.len(),
{
    if text.len() == 0 {
        seq![]
    } else {
        char_units(text[0]) + utf16(text.drop_first())
    }
}

/// The first half of a surrogate pair.
pub open spec fn is_high_surrogate(unit: u16) -> bool {
    0xd800 <= unit < 0xdc00
}

/// The second half of a surrogate pair.
pub open spec fn is_low_surrogate(unit: u16) -> bool {
    0xdc00 <= unit < 0xe000
}

/// The character that a surrogate pair stands for.
pub open spec fn surrogate_pair(high: u16, low: u16) -> char {
    (0x10000 + (high - 0xd800) * 0x400 + (low - 0xdc00)) as char
}

/// The text that units stand for; each half of a pair that stands alone reads as U+FFFD.
pub open spec fn lossy_text(units: Seq<u16>) -> Seq<char>
    decreases units.len(),
{
    if units.len() == 0 {
        seq![]
    } else if is_high_surrogate(units[0]) && units.len() > 1 && is_low_surrogate(units[1]) {
        seq![surrogate_pair(units[0], units[1])] + lossy_text(units.skip(2))
    } else if is_high_surrogate(units[0]) || is_low_surrogate(units[0]) {
        seq!['\u{fffd}'] + lossy_text(units.skip(1))
    } else {
        seq![units[0] as char] + lossy_text(units.skip(1))
    }
}

/// What stands before the first zero unit; all of it where there is none.
pub open spec fn before_nul(units: Seq<u16>) -> Seq<u16>
    decreases units.len(),
{
    if units.len() == 0 || units[0] == 0 {
        seq![]
    } else {
        seq![units[0]] + before_nul(units.drop_first())
    }
}

/// `char::from_u32`: the character with the given scalar value, if there is one.
pub assume_specification[ char::from_u32 ](i: u32) -> (r: Option<char>)
    ensures
        r == (if i < 0xd800 || 0xe000 <= i <= 0x10ffff {
            Some(i as char)
        } else {
            None
        }),
;

/// `String::push`: puts a character behind the text.
pub assume_specification[ String::push ](s: &mut String, ch: char)
    ensures
        final(s)@ == old(s)@.push(ch),
;

/// A text in UTF-16 as system calls take it, closed by a zero unit.
pub fn wide_null(value: &str) -> (r: Vec<u16>)
    ensures
        r@ == utf16(value@).push(0),
{
    let mut units = encode_wide(value);
    units.push(0);
    units
}

/// A path, held in the units in which the system spells it, closed by a zero unit.
pub fn path_to_wide(path: &[u16]) -> (r: Vec<u16>)
    ensures
        r@ == path@.push(0),
{
    let mut units = slice_to_vec(path);
    units.push(0);
    units
}

/// The text that a buffer holds before its first zero unit.
pub fn text_before_nul(buffer: &[u16]) -> (r: String)
    ensures
        r@ == lossy_text(before_nul(buffer@)),
{
    let mut end: usize = 0;
    assert(buffer@.skip(0) =~= buffer@);
    assert(buffer@.take(0) =~= seq![]);
    while end < buffer.len() && buffer[end] != 0
        invariant
            end <= buffer@.len(),
            buffer@.take(end as int) + before_nul(buffer@.skip(end as int)) == before_nul(buffer@),
        decreases buffer.len() - end,
    {
        proof {
            let rest = buffer@.skip(end as int);
            assert(rest.drop_first() =~= buffer@.skip(end + 1));
            assert(buffer@.take(end + 1) + before_nul(rest.drop_first()) =~= buffer@.take(
                end as int,
            ) + before_nul(rest));
        }
        end = end + 1;
    }
    assert(before_nul(buffer@) =~= buffer@.subrange(0, end as int));
    decode_lossy(slice_subrange(buffer, 0, end))
}

/// A text in UTF-16.
pub fn encode_wide(value: &str) -> (r: Vec<u16>)
    ensures
        r@ == utf16(value@),
{
    let chars = chars_of(value);
    let mut units: Vec<u16> = Vec::new();
    let mut i: usize = 0;
    assert(chars@.skip(0) =~= chars@);
    while i < chars.len()
        invariant
            i <= chars@.len(),
            units@ + utf16(chars@.skip(i as int)) == utf16(chars@),
        decreases chars.len() - i,
    {
        let ghost before = units@;
        let ghost rest = chars@.skip(i as int);
        let n: u32 = chars[i] as u32;
        if n < 0x10000 {
            units.push(n as u16);
        } else {
            units.push((0xd800 + (n - 0x10000) / 0x400) as u16);
            units.push((0xdc00 + (n - 0x10000) % 0x400) as u16);
        }
        proof {
            assert(rest.drop_first() =~= chars@.skip(i + 1));
            assert(units@ =~= before + char_units(rest[0]));
            assert(units@ + utf16(chars@.skip(i + 1)) =~= before + utf16(rest));
        }
        i = i + 1;
    }
    assert(units@ + utf16(chars@.skip(i as int)) =~= units@);
    units
}

/// The text that units stand for.
pub fn decode_lossy(units: &[u16]) -> (r: String)
    ensures
        r@ == lossy_text(units@),
{
    let mut text = String::new();
    let mut i: usize = 0;
    assert(units@.skip(0) =~= units@);
    while i < units.len()
        invariant
            i <= units@.len(),
            text@ + lossy_text(units@.skip(i as int)) == lossy_text(units@),
        decreases units.len() - i,
    {
        let ghost before = text@;
        let ghost rest = units@.skip(i as int);
        let unit: u16 = units[i];
        let mut code: u32 = unit as u32;
        let mut used: usize = 1;
        if 0xd800 <= unit && unit < 0xdc00 && i + 1 < units.len() && 0xdc00 <= units[i + 1]
            && units[i + 1] < 0xe000 {
            code = 0x10000 + (unit - 0xd800) as u32 * 0x400 + (units[i + 1] - 0xdc00) as u32;
            used = 2;
        }
        match char::from_u32(code) {
            Some(c) => text.push(c),
            None => text.push('\u{fffd}'),
        }
        proof {
            assert(rest.skip(used as int) =~= units@.skip(i + used));
            assert(text@ + lossy_text(rest.skip(used as int)) =~= before + lossy_text(rest));
        }
        i = i + used;
    }
    assert(text@ + lossy_text(units@.skip(i as int)) =~= text@);
    text
}

/// The units of a character read back as that character.
proof fn lemma_char_units_read_back(c: char, rest: Seq<u16>)
    ensures
        lossy_text(char_units(c) + rest) == seq![c] + lossy_text(rest),
{
    let n = c as u32;
    let units = char_units(c) + rest;
    if n < 0x10000 {
        assert(units.skip(1) =~= rest);
        assert(units[0] == n);
    } else {
        assert(units.skip(2) =~= rest);
        assert(units[0] == 0xd800 + (n - 0x10000) / 0x400);
        assert(units[1] == 0xdc00 + (n - 0x10000) % 0x400);
        assert(surrogate_pair(units[0], units[1]) == c);
    }
}

/// Reading a text's own UTF-16 gives the text back.
pub proof fn law_text_survives_utf16(text: Seq<char>)
    ensures
        lossy_text(utf16(text)) == text,
    decreases text.len(),
{
    if text.len() > 0 {
        let rest = text.drop_first();
        law_text_survives_utf16(rest);
        lemma_char_units_read_back(text[0], utf16(rest));
        assert(seq![text[0]] + rest =~= text);
    }
}

/// A text without a zero character that is handed over with a closing zero reads back whole.
pub proof fn law_wide_null_reads_back(text: Seq<char>)
    requires
        forall|i: int| 0 <= i < text.len() ==> text[i] != '\0',
    ensures
        before_nul(utf16(text).push(0)) == utf16(text),
        lossy_text(before_nul(utf16(text).push(0))) == text,
    decreases text.len(),
{
    law_text_survives_utf16(text);
    if text.len() > 0 {
        let rest = text.drop_first();
        let units = utf16(text).push(0);
        law_wide_null_reads_back(rest);
        if (text[0] as u32) < 0x10000 {
            assert(units.drop_first() =~= utf16(rest).push(0));
        } else {
            let tail = units.drop_first();
            assert(tail.drop_first() =~= utf16(rest).push(0));
            assert(before_nul(tail) =~= seq![tail[0]] + utf16(rest));
        }
        assert(before_nul(units) =~= utf16(text));
    } else {
        assert(before_nul(utf16(text).push(0)) =~= utf16(text));
    }
}

/// UTF-16 writes texts one behind the other.
proof fn lemma_utf16_of_both(one: Seq<char>, other: Seq<char>)
    ensures
        utf16(one + other) == utf16(one) + utf16(other),
    decreases one.len(),
{
    if one.len() == 0 {
        assert(one + other =~= other);
        assert(utf16(one) + utf16(other) =~= utf16(other));
    } else {
        let text = one + other;
        assert(text.drop_first() =~= one.drop_first() + other);
        lemma_utf16_of_both(one.drop_first(), other);
        assert(utf16(text) =~= utf16(one) + utf16(other));
    }
}

/// UTF-16 writes a text character by character. One below 0x10000 takes the unit of its own number;
/// any other takes two, a unit from 0xd800 on and one from 0xdc00 on, with the upper and the lower ten
/// bits of what its number exceeds 0x10000 by.
pub proof fn law_utf16_by_character(text: Seq<char>, c: char)
    ensures
        utf16(seq![]) == Seq::<u16>::empty(),
        ({
            let before = utf16(text);
            let units = utf16(text.push(c));
            let n = c as int;
            if n < 0x10000 {
                units == before.push(n as u16)
            } else {
                let high = units[units.len() - 2];
                let low = units[units.len() - 1];
                &&& units == before.push(high).push(low)
                &&& 0xd800 <= high < 0xdc00
                &&& 0xdc00 <= low < 0xe000
                &&& n - 0x10000 == 0x400 * (high - 0xd800) + (low - 0xdc00)
            }
        }),
{
    let last = seq![c];
    let n = c as u32;
    assert(text.push(c) =~= text + last);
    lemma_utf16_of_both(text, last);
    assert(utf16(last.drop_first()) =~= seq![]);
    assert(last[0] == c);
    assert(utf16(last) =~= char_units(c));
    let units = utf16(text.push(c));
    if n < 0x10000 {
        assert(units =~= utf16(text).push(n as u16));
    } else {
        assert(units[units.len() - 2] == 0xd800 + (n - 0x10000) / 0x400);
        assert(units[units.len() - 1] == 0xdc00 + (n - 0x10000) % 0x400);
        assert(units =~= utf16(text).push(units[units.len() - 2]).push(units[units.len() - 1]));
    }
}

/// A text's own UTF-16 reads back as the text, whatever follows it.
proof fn lemma_text_reads_back_before(text: Seq<char>, rest: Seq<u16>)
    ensures
        lossy_text(utf16(text) + rest) == text + lossy_text(rest),
    decreases text.len(),
{
    if text.len() == 0 {
        assert(utf16(text) + rest =~= rest);
        assert(text + lossy_text(rest) =~= lossy_text(rest));
    } else {
        let later = text.drop_first();
        lemma_text_reads_back_before(later, rest);
        assert(utf16(text) + rest =~= char_units(text[0]) + (utf16(later) + rest));
        lemma_char_units_read_back(text[0], utf16(later) + rest);
        assert(seq![text[0]] + (later + lossy_text(rest)) =~= text + lossy_text(rest));
    }
}

/// Units read as the text that they write, and each half of a pair that stands alone reads as the
/// replacement character; what comes before and behind it is read all the same.
pub proof fn law_units_are_read(text: Seq<char>, unit: u16, rest: Seq<u16>)
    ensures
        lossy_text(seq![]) == Seq::<char>::empty(),
        lossy_text(utf16(text) + rest) == text + lossy_text(rest),
        0xd800 <= unit < 0xe000 && !(unit < 0xdc00 && rest.len() > 0 && 0xdc00 <= rest[0]
            < 0xe000) ==> lossy_text(utf16(text) + seq![unit] + rest) == text.push('\u{fffd}')
            + lossy_text(rest),
{
    lemma_text_reads_back_before(text, rest);
    let alone = seq![unit] + rest;
    assert(utf16(text) + seq![unit] + rest =~= utf16(text) + alone);
    lemma_text_reads_back_before(text, alone);
    if 0xd800 <= unit < 0xe000 && !(unit < 0xdc00 && rest.len() > 0 && 0xdc00 <= rest[0] < 0xe000) {
        assert(alone.skip(1) =~= rest);
        assert(text + (seq!['\u{fffd}'] + lossy_text(rest)) =~= text.push('\u{fffd}') + lossy_text(
            rest,
        ));
    }
}

/// What counts of a buffer is its head without a zero unit, up to its first zero or its end.
pub proof fn law_buffer_ends_at_nul(units: Seq<u16>)
    ensures
        before_nul(units).len() <= units.len(),
        before_nul(units) == units.take(before_nul(units).len() as int),
        forall|i: int| 0 <= i < before_nul(units).len() ==> #[trigger] units[i] != 0,
        before_nul(units).len() < units.len() ==> units[before_nul(units).len() as int] == 0,
    decreases units.len(),
{
    if units.len() > 0 && units[0] != 0 {
        let rest = units.drop_first();
        law_buffer_ends_at_nul(rest);
        let len = before_nul(units).len();
        assert(before_nul(units) =~= units.take(len as int));
        assert forall|i: int| 0 <= i < len implies #[trigger] units[i] != 0 by {
            if i > 0 {
                assert(units[i] == rest[i - 1]);
            }
        }
    } else {
        assert(before_nul(units) =~= units.take(0));
    }
}

} // verus!
