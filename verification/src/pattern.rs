use vstd::prelude::*;
use crate::text::{chars_of, is_whitespace};

#[allow(unused_imports)]
use crate::text::is_white_space;

verus! {

/// The value of a hexadecimal digit of either case.
pub open spec fn hex_digit(c: char) -> Option<int> {
    if '0' <= c <= '9' {
        Some(c as int - '0' as int)
    } else if 'a' <= c <= 'f' {
        Some(c as int - 'a' as int + 10)
    } else if 'A' <= c <= 'F' {
        Some(c as int - 'A' as int + 10)
    } else {
        None
    }
}

/// The number that hexadecimal digits write.
pub open spec fn hex_value(digits: Seq<char>) -> int
    decreases digits.len(),
{
    if digits.len() == 0 {
        0
    } else {
        16 * hex_value(digits.drop_last()) + hex_digit(digits.last()).unwrap_or(0)
    }
}

/// The digits of a number without the plus sign that may stand before them.
pub open spec fn unsigned_digits(word: Seq<char>) -> Seq<char> {
    if word.len() > 0 && word[0] == '+' {
        word.drop_first()
    } else {
        word
    }
}

/// The byte that a word writes in hexadecimal: one digit or more, behind at most one plus sign,
/// of a value below 256.
pub open spec fn hex_byte(word: Seq<char>) -> Option<u8> {
    let digits = unsigned_digits(word);
    if digits.len() > 0 && (forall|i: int|
        0 <= i < digits.len() ==> (#[trigger] hex_digit(digits[i])) is Some) && hex_value(digits)
        <= 255 {
        Some(hex_value(digits) as u8)
    } else {
        None
    }
}

/// What a word of a pattern asks of a byte: `??` asks nothing, a number asks for that byte.
pub open spec fn word_value(word: Seq<char>) -> Option<Option<u8>> {
    if word == seq!['?', '?'] {
        Some(None)
    } else {
        match hex_byte(word) {
            Some(byte) => Some(Some(byte)),
            None => None,
        }
    }
}

/// How many characters stand before the first white space.
pub open spec fn word_len(text: Seq<char>) -> nat
    decreases text.len(),
{
    if text.len() == 0 || is_white_space(text[0]) {
        0
    } else {
        1 + word_len(text.drop_first())
    }
}

/// The words of a text, parted by white space.
pub open spec fn words(text: Seq<char>) -> Seq<Seq<char>>
    decreases text.len(),
{
    if text.len() == 0 {
        seq![]
    } else if is_white_space(text[0]) {
        words(text.drop_first())
    } else {
        proof {
            lemma_word_len(text);
        }
        seq![text.take(word_len(text) as int)] + words(text.skip(word_len(text) as int))
    }
}

/// The pattern that a text writes, if each of its words has a value.
pub open spec fn written_pattern(text: Seq<char>) -> Option<Seq<Option<u8>>> {
    let parts = words(text);
    if forall|i: int| 0 <= i < parts.len() ==> (#[trigger] word_value(parts[i])) is Some {
        Some(Seq::new(parts.len(), |i: int| word_value(parts[i])->0))
    } else {
        None
    }
}

/// The pattern fits the bytes that begin at `offset`.
pub open spec fn fits_at(pattern: Seq<Option<u8>>, bytes: Seq<u8>, offset: int) -> bool {
    &&& 0 <= offset
    &&& offset + pattern.len() <= bytes.len()
    &&& forall|i: int|
        0 <= i < pattern.len() ==> (#[trigger] pattern[i] matches Some(byte) ==> bytes[offset + i]
            == byte)
}

/// The word at the head of a text is no longer than the text.
pub proof fn lemma_word_len(text: Seq<char>)
    ensures
        word_len(text) <= text.len(),
        forall|i: int| 0 <= i < word_len(text) ==> !is_white_space(#[trigger] text[i]),
        word_len(text) < text.len() ==> is_white_space(text[word_len(text) as int]),
    decreases text.len(),
{
    if text.len() > 0 && !is_white_space(text[0]) {
        let rest = text.drop_first();
        lemma_word_len(rest);
        assert forall|i: int| 0 <= i < word_len(text) implies !is_white_space(
            #[trigger] text[i],
        ) by {
            if i > 0 {
                assert(rest[i - 1] == text[i]);
            }
        }
        if word_len(text) < text.len() {
            assert(rest[word_len(rest) as int] == text[word_len(text) as int]);
        }
    }
}

/// The head of a text up to its first white space is its first word.
proof fn lemma_word_len_is(text: Seq<char>, len: nat)
    requires
        len <= text.len(),
        forall|i: int| 0 <= i < len ==> !is_white_space(#[trigger] text[i]),
        len < text.len() ==> is_white_space(text[len as int]),
    ensures
        word_len(text) == len,
{
    lemma_word_len(text);
    if len < word_len(text) {
        assert(!is_white_space(text[len as int]));
    } else if word_len(text) < len {
        assert(!is_white_space(text[word_len(text) as int]));
    }
}

/// More digits never make a number smaller.
proof fn lemma_hex_value_grows(digits: Seq<char>, len: int)
    requires
        0 <= len <= digits.len(),
        forall|i: int| 0 <= i < digits.len() ==> (#[trigger] hex_digit(digits[i])) is Some,
    ensures
        0 <= hex_value(digits.take(len)) <= hex_value(digits),
    decreases digits.len(),
{
    if len == digits.len() {
        assert(digits.take(len) =~= digits);
        if len > 0 {
            assert(hex_digit(digits[len - 1]) is Some);
            assert forall|i: int| 0 <= i < digits.len() - 1 implies (#[trigger] hex_digit(
                digits.drop_last()[i],
            )) is Some by {
                assert(hex_digit(digits[i]) is Some);
            }
            lemma_hex_value_grows(digits.drop_last(), len - 1);
            assert(digits.drop_last().take(len - 1) =~= digits.drop_last());
        }
    } else {
        assert(hex_digit(digits.last()) is Some);
        assert forall|i: int| 0 <= i < digits.len() - 1 implies (#[trigger] hex_digit(
            digits.drop_last()[i],
        )) is Some by {
            assert(hex_digit(digits[i]) is Some);
        }
        lemma_hex_value_grows(digits.drop_last(), len);
        assert(digits.drop_last().take(len) =~= digits.take(len));
    }
}

/// The value of a hexadecimal digit.
fn digit_of(c: char) -> (r: Option<u32>)
    ensures
        match r {
            Some(value) => hex_digit(c) == Some(value as int) && value < 16,
            None => hex_digit(c) is None,
        },
{
    if '0' <= c && c <= '9' {
        Some(c as u32 - '0' as u32)
    } else if 'a' <= c && c <= 'f' {
        Some(c as u32 - 'a' as u32 + 10)
    } else if 'A' <= c && c <= 'F' {
        Some(c as u32 - 'A' as u32 + 10)
    } else {
        None
    }
}

/// The byte that `chars[from..to]` writes in hexadecimal.
fn parse_hex_byte(chars: &Vec<char>, from: usize, to: usize) -> (r: Option<u8>)
    requires
        from < to <= chars@.len(),
    ensures
        r == hex_byte(chars@.subrange(from as int, to as int)),
{
    let ghost word = chars@.subrange(from as int, to as int);
    let ghost digits = unsigned_digits(word);
    let start: usize = if chars[from] == '+' {
        from + 1
    } else {
        from
    };
    if start == to {
        return None;
    }
    assert(digits =~= chars@.subrange(start as int, to as int));
    let mut at: usize = start;
    let mut value: u32 = 0;
    assert(digits.take(0) =~= seq![]);
    while at < to
        invariant
            from <= start <= at <= to <= chars@.len(),
            word == chars@.subrange(from as int, to as int),
            digits == unsigned_digits(word),
            digits == chars@.subrange(start as int, to as int),
            value <= 255,
            value == hex_value(digits.take(at - start)),
            forall|i: int| 0 <= i < at - start ==> (#[trigger] hex_digit(digits[i])) is Some,
        decreases to - at,
    {
        assert(digits[at - start] == chars@[at as int]);
        match digit_of(chars[at]) {
            None => {
                return None;
            },
            Some(digit) => {
                proof {
                    let longer = digits.take(at - start + 1);
                    assert(longer.drop_last() =~= digits.take(at - start));
                    assert(longer.last() == digits[at - start]);
                }
                value = value * 16 + digit;
                at = at + 1;
                if value > 255 {
                    proof {
                        if forall|i: int|
                            0 <= i < digits.len() ==> (#[trigger] hex_digit(digits[i])) is Some {
                            lemma_hex_value_grows(digits, at - start);
                        }
                    }
                    return None;
                }
            },
        }
    }
    assert(digits.take(at - start) =~= digits);
    Some(value as u8)
}

/// Reads a pattern of bytes: words parted by white space, each a byte in hexadecimal or `??` for
/// any byte. A text with another word in it is no pattern.
pub fn parse_pattern(pattern: &str) -> (r: Option<Vec<Option<u8>>>)
    ensures
        match r {
            Some(parsed) => written_pattern(pattern@) == Some(parsed@),
            None => written_pattern(pattern@) is None,
        },
{
    let chars = chars_of(pattern);
    let mut parsed: Vec<Option<u8>> = Vec::new();
    let mut at: usize = 0;
    let ghost mut done: Seq<Seq<char>> = seq![];
    assert(chars@.skip(0) =~= chars@);
    assert(done + words(chars@) =~= words(chars@));
    while at < chars.len()
        invariant
            at <= chars@.len(),
            chars@ == pattern@,
            done + words(chars@.skip(at as int)) == words(chars@),
            done.len() == parsed@.len(),
            forall|i: int|
                0 <= i < done.len() ==> (#[trigger] word_value(done[i])) == Some(parsed@[i]),
        decreases chars.len() - at,
    {
        let ghost rest = chars@.skip(at as int);
        if is_whitespace(chars[at]) {
            assert(rest.drop_first() =~= chars@.skip(at + 1));
            at = at + 1;
        } else {
            let mut end: usize = at + 1;
            while end < chars.len() && !is_whitespace(chars[end])
                invariant
                    at < end <= chars@.len(),
                    rest == chars@.skip(at as int),
                    forall|i: int| 0 <= i < end - at ==> !is_white_space(#[trigger] rest[i]),
                decreases chars.len() - end,
            {
                end = end + 1;
            }
            let ghost word = chars@.subrange(at as int, end as int);
            proof {
                lemma_word_len_is(rest, (end - at) as nat);
                assert(rest.take(end - at) =~= word);
                assert(rest.skip(end - at) =~= chars@.skip(end as int));
                assert(words(rest) == seq![word] + words(chars@.skip(end as int)));
                assert(words(chars@)[done.len() as int] == word);
            }
            let value: Option<u8> = if end - at == 2 && chars[at] == '?' && chars[at + 1] == '?' {
                assert(word =~= seq!['?', '?']);
                None
            } else {
                assert(word != seq!['?', '?']) by {
                    if word == seq!['?', '?'] {
                        assert(word.len() == 2);
                        assert(word[0] == '?');
                        assert(word[1] == '?');
                    }
                }
                match parse_hex_byte(&chars, at, end) {
                    Some(byte) => Some(byte),
                    None => {
                        assert(word_value(words(chars@)[done.len() as int]) is None);
                        return None;
                    },
                }
            };
            parsed.push(value);
            proof {
                assert(done.push(word) + words(chars@.skip(end as int)) =~= words(chars@));
                done = done.push(word);
            }
            at = end;
        }
    }
    assert(done + words(chars@.skip(at as int)) =~= done);
    assert(parsed@ =~= written_pattern(pattern@)->0);
    Some(parsed)
}

/// Whether the pattern fits the bytes that begin at `offset`.
pub fn matches_at(pattern: &Vec<Option<u8>>, bytes: &[u8], offset: usize) -> (r: bool)
    ensures
        r == fits_at(pattern@, bytes@, offset as int),
{
    if bytes.len() < pattern.len() || bytes.len() - pattern.len() < offset {
        return false;
    }
    let mut i: usize = 0;
    while i < pattern.len()
        invariant
            i <= pattern@.len(),
            offset + pattern@.len() <= bytes.len() == bytes@.len(),
            forall|j: int|
                0 <= j < i ==> (#[trigger] pattern@[j] matches Some(byte) ==> bytes@[offset + j]
                    == byte),
        decreases pattern.len() - i,
    {
        if let Some(byte) = pattern[i] {
            if bytes[offset + i] != byte {
                return false;
            }
        }
        i = i + 1;
    }
    true
}

/// The word of two characters that stands in place `at` of a text of such words.
pub open spec fn pair_word(text: Seq<char>, at: int) -> Seq<char> {
    seq![text[3 * at], text[3 * at + 1]]
}

/// Each of the first `count` places of a text holds `??` or two digits, and one blank parts it from
/// the place before.
pub open spec fn evenly_written(text: Seq<char>, count: nat) -> bool
    decreases count,
{
    if count == 0 {
        true
    } else {
        let at = count - 1;
        &&& evenly_written(text, at as nat)
        &&& at > 0 ==> text[3 * at - 1] == ' '
        &&& {
            ||| text[3 * at] == '?' && text[3 * at + 1] == '?'
            ||| hex_digit(text[3 * at]) is Some && hex_digit(text[3 * at + 1]) is Some
        }
    }
}

/// What `evenly_written` says of one place.
proof fn lemma_evenly_written_at(text: Seq<char>, count: nat, at: int)
    requires
        evenly_written(text, count),
        0 <= at < count,
    ensures
        at > 0 ==> text[3 * at - 1] == ' ',
        ({
            ||| text[3 * at] == '?' && text[3 * at + 1] == '?'
            ||| hex_digit(text[3 * at]) is Some && hex_digit(text[3 * at + 1]) is Some
        }),
    decreases count,
{
    if at < count - 1 {
        lemma_evenly_written_at(text, (count - 1) as nat, at);
    }
}

/// Two digits write a byte.
proof fn lemma_two_digits(word: Seq<char>)
    requires
        word.len() == 2,
        hex_digit(word[0]) is Some,
        hex_digit(word[1]) is Some,
    ensures
        word_value(word) == Some(
            Some((16 * hex_digit(word[0])->0 + hex_digit(word[1])->0) as u8),
        ),
{
    reveal_with_fuel(hex_value, 3);
    assert(unsigned_digits(word) == word);
    assert(word.drop_last().last() == word[0]);
    assert(word != seq!['?', '?']) by {
        assert(seq!['?', '?'][0] == '?');
    }
}

/// The words of an evenly written text from the place `at` on.
proof fn lemma_even_words(text: Seq<char>, count: nat, at: nat)
    requires
        evenly_written(text, count),
        text.len() == 3 * count - 1,
        at < count,
    ensures
        words(text.skip(3 * at as int)) == Seq::new(
            (count - at) as nat,
            |i: int| pair_word(text, at + i),
        ),
    decreases count - at,
{
    let rest = text.skip(3 * at as int);
    lemma_evenly_written_at(text, count, at as int);
    if at + 1 < count {
        lemma_evenly_written_at(text, count, (at + 1) as int);
        assert(rest[2] == text[3 * (at + 1) - 1]);
    }
    lemma_word_len_is(rest, 2);
    assert(rest.take(2) =~= pair_word(text, at as int));
    let behind = rest.skip(2);
    let expected = Seq::new((count - at) as nat, |i: int| pair_word(text, at + i));
    if at + 1 < count {
        assert(behind[0] == ' ');
        assert(behind.drop_first() =~= text.skip(3 * (at + 1) as int));
        assert(words(behind) == words(behind.drop_first()));
        lemma_even_words(text, count, at + 1);
    } else {
        assert(words(behind) =~= seq![]);
    }
    assert(!is_white_space(rest[0]));
    assert(words(rest) == seq![rest.take(2)] + words(behind));
    assert(words(rest) =~= expected);
}

/// What the word in place `at` of an evenly written text asks of a byte.
pub open spec fn pair_value(text: Seq<char>, at: int) -> Option<u8> {
    if text[3 * at] == '?' {
        None
    } else {
        Some((16 * hex_digit(text[3 * at])->0 + hex_digit(text[3 * at + 1])->0) as u8)
    }
}

/// A text of two-character words with one blank between them, each `??` or two digits, is a pattern
/// with one place for each word.
pub proof fn law_even_text_is_pattern(text: Seq<char>, count: nat)
    requires
        count > 0,
        text.len() == 3 * count - 1,
        evenly_written(text, count),
    ensures
        written_pattern(text) == Some(Seq::new(count, |i: int| pair_value(text, i))),
{
    assert(text.skip(0) =~= text);
    lemma_even_words(text, count, 0);
    let parts = words(text);
    assert forall|i: int| 0 <= i < parts.len() implies (#[trigger] word_value(parts[i])) == Some(
        pair_value(text, i),
    ) by {
        lemma_evenly_written_at(text, count, i);
        if text[3 * i] != '?' {
            lemma_two_digits(parts[i]);
        }
    }
    assert(written_pattern(text)->0 =~= Seq::new(count, |i: int| pair_value(text, i)));
}

/// The hexadecimal digits, in either case, in the order of their values.
pub proof fn law_hex_digits(c: char, value: int)
    ensures
        hex_digit(c) == Some(value) <==> 0 <= value < 16 && (c == "0123456789abcdef"@[value] || c
            == "0123456789ABCDEF"@[value]),
{
    reveal_strlit("0123456789abcdef");
    reveal_strlit("0123456789ABCDEF");
    if 0 <= value < 16 {
        assert(value == 0 || value == 1 || value == 2 || value == 3 || value == 4 || value == 5
            || value == 6 || value == 7 || value == 8 || value == 9 || value == 10 || value == 11
            || value == 12 || value == 13 || value == 14 || value == 15);
    }
}

/// A first digit, with or without a plus sign before it, writes its own value. Each further digit
/// makes it sixteen times as much and adds its own, as long as that is below 256. Nothing else writes
/// a byte.
pub proof fn law_hex_byte_by_digit(word: Seq<char>, c: char)
    ensures
        hex_byte(seq![]) is None,
        ({
            let longer = hex_byte(word.push(c));
            if word.len() == 0 && c == '+' {
                longer is None
            } else if word.len() == 0 || word == seq!['+'] {
                match hex_digit(c) {
                    Some(digit) => longer == Some(digit as u8),
                    None => longer is None,
                }
            } else {
                match (hex_byte(word), hex_digit(c)) {
                    (Some(byte), Some(digit)) => if 16 * byte + digit < 256 {
                        longer == Some((16 * byte + digit) as u8)
                    } else {
                        longer is None
                    },
                    _ => longer is None,
                }
            }
        }),
{
    reveal_with_fuel(hex_value, 2);
    let digits = unsigned_digits(word);
    let more = unsigned_digits(word.push(c));
    if word.len() == 0 && c == '+' {
        assert(more =~= seq![]);
    } else {
        assert(more =~= digits.push(c));
        assert(more.drop_last() =~= digits);
        assert(more[digits.len() as int] == c);
        assert forall|i: int| 0 <= i < digits.len() implies more[i] == digits[i] by {}
        if word.len() == 0 || word == seq!['+'] {
            assert(digits =~= seq![]);
        } else {
            assert(digits.len() > 0) by {
                if word.len() == 1 && word[0] == '+' {
                    assert(word =~= seq!['+']);
                }
            }
            if forall|i: int| 0 <= i < digits.len() ==> (#[trigger] hex_digit(digits[i])) is Some {
                lemma_hex_value_grows(digits, digits.len() as int);
                if hex_digit(c) is Some {
                    assert forall|i: int| 0 <= i < more.len() implies (#[trigger] hex_digit(
                        more[i],
                    )) is Some by {
                        if i < digits.len() {
                            assert(hex_digit(digits[i]) is Some);
                        }
                    }
                } else {
                    assert(hex_digit(more[digits.len() as int]) is None);
                }
            } else {
                let i = choose|i: int|
                    0 <= i < digits.len() && !((#[trigger] hex_digit(digits[i])) is Some);
                assert(hex_digit(more[i]) is None);
            }
        }
    }
}

/// White space before a word does not count, and a word reaches up to the next white space.
pub proof fn law_words_by_blank(word: Seq<char>, c: char, rest: Seq<char>)
    requires
        is_white_space(c),
        word.len() > 0,
        forall|i: int| 0 <= i < word.len() ==> !is_white_space(#[trigger] word[i]),
    ensures
        words(seq![]) == Seq::<Seq<char>>::empty(),
        words(seq![c] + rest) == words(rest),
        words(word) == seq![word],
        words(word + seq![c] + rest) == seq![word] + words(rest),
{
    let blank = seq![c] + rest;
    assert(blank[0] == c);
    assert(blank.drop_first() =~= rest);
    lemma_word_len_is(word, word.len());
    assert(!is_white_space(word[0]));
    assert(word.take(word.len() as int) =~= word);
    assert(words(word.skip(word.len() as int)) =~= seq![]);
    assert(words(word) =~= seq![word]);
    let text = word + seq![c] + rest;
    assert forall|i: int| 0 <= i < word.len() implies !is_white_space(#[trigger] text[i]) by {
        assert(text[i] == word[i]);
    }
    assert(text[word.len() as int] == c);
    lemma_word_len_is(text, word.len());
    assert(!is_white_space(text[0]));
    assert(text.take(word.len() as int) =~= word);
    assert(text.skip(word.len() as int) =~= blank);
}

/// A text writes a pattern word by word: `??` stands for any byte, a byte in hexadecimal for itself.
/// A text with any other word in it writes none.
pub proof fn law_pattern_by_word(word: Seq<char>, c: char, rest: Seq<char>)
    requires
        is_white_space(c),
        word.len() > 0,
        forall|i: int| 0 <= i < word.len() ==> !is_white_space(#[trigger] word[i]),
    ensures
        written_pattern(seq![]) == Some(Seq::<Option<u8>>::empty()),
        written_pattern(seq![c] + rest) == written_pattern(rest),
        ({
            let value = if word == seq!['?', '?'] {
                Some(None::<u8>)
            } else {
                match hex_byte(word) {
                    Some(byte) => Some(Some(byte)),
                    None => None,
                }
            };
            match (value, written_pattern(rest)) {
                (Some(place), Some(pattern)) => written_pattern(word + seq![c] + rest) == Some(
                    seq![place] + pattern,
                ),
                _ => written_pattern(word + seq![c] + rest) is None,
            }
        }),
        written_pattern(word) == written_pattern(word + seq![c]),
{
    law_words_by_blank(word, c, rest);
    let nothing: Seq<char> = seq![];
    law_words_by_blank(word, c, nothing);
    assert(word + seq![c] + nothing =~= word + seq![c]);
    assert(seq![word] + words(nothing) =~= seq![word]);
    assert(written_pattern(nothing)->0 =~= Seq::<Option<u8>>::empty());
    let later = words(rest);
    let parts = words(word + seq![c] + rest);
    assert(parts[0] == word);
    assert forall|i: int| 0 <= i < later.len() implies #[trigger] parts[i + 1] == later[i] by {}
    if written_pattern(rest) is None {
        let i = choose|i: int| 0 <= i < later.len() && !((#[trigger] word_value(later[i])) is Some);
        assert(word_value(parts[i + 1]) is None);
    } else if word_value(word) is None {
        assert(word_value(parts[0]) is None);
    } else {
        assert forall|i: int| 0 <= i < parts.len() implies (#[trigger] word_value(parts[i])) is Some by {
            if i > 0 {
                assert(word_value(later[i - 1]) is Some);
                assert(parts[i] == later[i - 1]);
            }
        }
        let expected = seq![word_value(word)->0] + written_pattern(rest)->0;
        assert forall|i: int| 0 <= i < parts.len() implies written_pattern(
            word + seq![c] + rest,
        )->0[i] == expected[i] by {
            if i > 0 {
                assert(parts[i] == later[i - 1]);
            }
        }
        assert(written_pattern(word + seq![c] + rest)->0 =~= expected);
    }
}

/// A pattern without places fits wherever there are bytes left or none at all; each further place
/// asks for one byte more, of any value or of its own.
pub proof fn law_fit_by_place(
    pattern: Seq<Option<u8>>,
    place: Option<u8>,
    bytes: Seq<u8>,
    offset: int,
)
    ensures
        fits_at(seq![], bytes, offset) <==> 0 <= offset <= bytes.len(),
        fits_at(pattern.push(place), bytes, offset) <==> {
            &&& fits_at(pattern, bytes, offset)
            &&& offset + pattern.len() < bytes.len()
            &&& place is None || place == Some(bytes[offset + pattern.len()])
        },
{
    let longer = pattern.push(place);
    if fits_at(longer, bytes, offset) {
        assert(longer[pattern.len() as int] == place);
        assert forall|i: int| 0 <= i < pattern.len() implies (#[trigger] pattern[i] matches Some(
            byte,
        ) ==> bytes[offset + i] == byte) by {
            assert(longer[i] == pattern[i]);
        }
    }
}

} // verus!
