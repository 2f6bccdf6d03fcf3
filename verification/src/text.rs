use vstd::prelude::*;

verus! {

/// The characters with the Unicode property `White_Space`.
pub open spec fn is_white_space(c: char) -> bool {
    let n = c as u32;
    ||| 0x9 <= n <= 0xd
    ||| n == 0x20
    ||| n == 0x85
    ||| n == 0xa0
    ||| n == 0x1680
    ||| 0x2000 <= n <= 0x200a
    ||| n == 0x2028
    ||| n == 0x2029
    ||| n == 0x202f
    ||| n == 0x205f
    ||| n == 0x3000
}

/// The text without the white space at its start.
pub open spec fn trimmed_start(text: Seq<char>) -> Seq<char>
    decreases text.len(),
{
    if text.len() > 0 && is_white_space(text[0]) {
        trimmed_start(text.drop_first())
    } else {
        text
    }
}

/// The text without the white space at its end.
pub open spec fn trimmed_end(text: Seq<char>) -> Seq<char>
    decreases text.len(),
{
    if text.len() > 0 && is_white_space(text.last()) {
        trimmed_end(text.drop_last())
    } else {
        text
    }
}

/// The text without the white space at either end.
pub open spec fn trimmed(text: Seq<char>) -> Seq<char> {
    trimmed_end(trimmed_start(text))
}

/// The code of a letter in lower case; only `A` to `Z` have another one.
pub open spec fn ascii_lower(code: u32) -> u32 {
    if 0x41 <= code <= 0x5a {
        (code + 0x20) as u32
    } else {
        code
    }
}

/// `at` is the first place where `c` stands in the text.
pub open spec fn first_at(text: Seq<char>, c: char, at: int) -> bool {
    &&& 0 <= at < text.len()
    &&& text[at] == c
    &&& forall|i: int| 0 <= i < at ==> text[i] != c
}

/// What stands before the first `c` of the text, if it holds one.
pub open spec fn text_before(text: Seq<char>, c: char) -> Option<Seq<char>> {
    if exists|at: int| first_at(text, c, at) {
        Some(text.take(choose|at: int| first_at(text, c, at)))
    } else {
        None
    }
}

/// Whether `c` is white space.
pub fn is_whitespace(c: char) -> (r: bool)
    ensures
        r == is_white_space(c),
{
    let n: u32 = c as u32;
    (0x9 <= n && n <= 0xd) || n == 0x20 || n == 0x85 || n == 0xa0 || n == 0x1680 || (0x2000 <= n
        && n <= 0x200a) || n == 0x2028 || n == 0x2029 || n == 0x202f || n == 0x205f || n == 0x3000
}

/// The code of a letter in lower case.
pub fn to_ascii_lower(code: u32) -> (r: u32)
    ensures
        r == ascii_lower(code),
{
    if 0x41 <= code && code <= 0x5a {
        code + 0x20
    } else {
        code
    }
}

/// The characters of a text.
pub fn chars_of(text: &str) -> (r: Vec<char>)
    ensures
        r@ == text@,
{
    let mut chars: Vec<char> = Vec::new();
    for c in it: text.chars()
        invariant
            it.seq() == text@,
            chars@ == it.seq().take(it.index()),
    {
        chars.push(c);
    }
    chars
}

/// The bounds of what trimming leaves of `chars[from..to]`.
pub fn trim_bounds(chars: &Vec<char>, from: usize, to: usize) -> (r: (usize, usize))
    requires
        from <= to <= chars@.len(),
    ensures
        from <= r.0 <= r.1 <= to,
        chars@.subrange(r.0 as int, r.1 as int) == trimmed(
            chars@.subrange(from as int, to as int),
        ),
{
    let ghost whole = chars@.subrange(from as int, to as int);
    let mut low: usize = from;
    while low < to && is_whitespace(chars[low])
        invariant
            from <= low <= to <= chars@.len(),
            trimmed_start(chars@.subrange(low as int, to as int)) == trimmed_start(whole),
        decreases to - low,
    {
        proof {
            assert(chars@.subrange(low as int, to as int).drop_first() =~= chars@.subrange(
                low + 1,
                to as int,
            ));
        }
        low = low + 1;
    }
    let mut high: usize = to;
    while low < high && is_whitespace(chars[high - 1])
        invariant
            from <= low <= high <= to <= chars@.len(),
            trimmed_end(chars@.subrange(low as int, high as int)) == trimmed(whole),
        decreases high - low,
    {
        proof {
            assert(chars@.subrange(low as int, high as int).drop_last() =~= chars@.subrange(
                low as int,
                high - 1,
            ));
        }
        high = high - 1;
    }
    (low, high)
}

/// The first place in `chars[from..to]` where `c` stands.
pub fn position_of(chars: &Vec<char>, from: usize, to: usize, c: char) -> (r: Option<usize>)
    requires
        from <= to <= chars@.len(),
    ensures
        match r {
            Some(at) => {
                &&& from <= at < to
                &&& first_at(chars@.subrange(from as int, to as int), c, at - from)
            },
            None => forall|at: int| !first_at(chars@.subrange(from as int, to as int), c, at),
        },
{
    let mut at: usize = from;
    while at < to
        invariant
            from <= at <= to <= chars@.len(),
            forall|i: int| from <= i < at ==> chars@[i] != c,
        decreases to - at,
    {
        if chars[at] == c {
            return Some(at);
        }
        at = at + 1;
    }
    None
}

/// Trimming leaves nothing to trim.
pub proof fn law_trimmed_has_no_outer_space(text: Seq<char>)
    ensures
        trimmed(text).len() > 0 ==> !is_white_space(trimmed(text)[0]) && !is_white_space(
            trimmed(text).last(),
        ),
        trimmed(trimmed(text)) == trimmed(text),
{
    lemma_trimmed_start(text);
    lemma_trimmed_end(trimmed_start(text));
}

/// What is left at the start does not begin with white space.
proof fn lemma_trimmed_start(text: Seq<char>)
    ensures
        trimmed_start(text).len() > 0 ==> !is_white_space(trimmed_start(text)[0]),
    decreases text.len(),
{
    if text.len() > 0 && is_white_space(text[0]) {
        lemma_trimmed_start(text.drop_first());
    }
}

/// What trimming leaves at the end is a head of the text.
pub proof fn lemma_trimmed_end_is_head(text: Seq<char>)
    ensures
        trimmed_end(text).len() <= text.len(),
        trimmed_end(text) == text.take(trimmed_end(text).len() as int),
{
    lemma_trimmed_end(text);
}

/// What is left at the end is a head of the text and does not end with white space.
proof fn lemma_trimmed_end(text: Seq<char>)
    ensures
        trimmed_end(text).len() <= text.len(),
        trimmed_end(text) == text.take(trimmed_end(text).len() as int),
        trimmed_end(text).len() > 0 ==> !is_white_space(trimmed_end(text).last()),
    decreases text.len(),
{
    if text.len() > 0 && is_white_space(text.last()) {
        let shorter = text.drop_last();
        lemma_trimmed_end(shorter);
        assert(shorter.take(trimmed_end(shorter).len() as int) =~= text.take(
            trimmed_end(shorter).len() as int,
        ));
    } else {
        assert(text.take(text.len() as int) =~= text);
    }
}

/// Trimming the end of a text stops at a character that is no white space.
pub proof fn lemma_trimmed_end_keeps(head: Seq<char>, tail: Seq<char>)
    requires
        head.len() > 0,
        !is_white_space(head.last()),
    ensures
        trimmed_end(head + tail) == head + trimmed_end(tail),
    decreases tail.len(),
{
    let text = head + tail;
    if tail.len() == 0 {
        assert(text =~= head);
        assert(head + trimmed_end(tail) =~= head);
    } else {
        assert(text.last() == tail.last());
        if is_white_space(tail.last()) {
            assert(text.drop_last() =~= head + tail.drop_last());
            lemma_trimmed_end_keeps(head, tail.drop_last());
        }
    }
}

/// The first place of a character is its only first place.
pub proof fn lemma_text_before(text: Seq<char>, c: char, at: int)
    requires
        first_at(text, c, at),
    ensures
        text_before(text, c) == Some(text.take(at)),
{
    let chosen = choose|i: int| first_at(text, c, i);
    assert(first_at(text, c, chosen));
    assert(chosen == at);
}

/// White space is made of these characters: tab, line feed, line tabulation, form feed, carriage
/// return, space, next line, no-break space, Ogham space, the spaces from en quad to hair space, line
/// and paragraph separator, narrow no-break space, medium mathematical space and ideographic space.
pub proof fn law_white_space(c: char)
    ensures
        is_white_space(c) <==> {
            ||| c == '\u{9}'
            ||| c == '\u{a}'
            ||| c == '\u{b}'
            ||| c == '\u{c}'
            ||| c == '\u{d}'
            ||| c == '\u{20}'
            ||| c == '\u{85}'
            ||| c == '\u{a0}'
            ||| c == '\u{1680}'
            ||| c == '\u{2000}'
            ||| c == '\u{2001}'
            ||| c == '\u{2002}'
            ||| c == '\u{2003}'
            ||| c == '\u{2004}'
            ||| c == '\u{2005}'
            ||| c == '\u{2006}'
            ||| c == '\u{2007}'
            ||| c == '\u{2008}'
            ||| c == '\u{2009}'
            ||| c == '\u{200a}'
            ||| c == '\u{2028}'
            ||| c == '\u{2029}'
            ||| c == '\u{202f}'
            ||| c == '\u{205f}'
            ||| c == '\u{3000}'
        },
{
}

/// What trimming leaves of a text is what stands between the white space at its two ends.
pub proof fn law_trimming(lead: Seq<char>, core: Seq<char>, tail: Seq<char>)
    requires
        forall|i: int| 0 <= i < lead.len() ==> is_white_space(#[trigger] lead[i]),
        forall|i: int| 0 <= i < tail.len() ==> is_white_space(#[trigger] tail[i]),
        core.len() > 0 ==> !is_white_space(core[0]) && !is_white_space(core.last()),
    ensures
        trimmed(lead + core + tail) == core,
    decreases lead.len(),
{
    let text = lead + core + tail;
    if lead.len() > 0 {
        let rest = lead.drop_first();
        assert(text[0] == lead[0]);
        assert(text.drop_first() =~= rest + core + tail);
        assert forall|i: int| 0 <= i < rest.len() implies is_white_space(#[trigger] rest[i]) by {
            assert(rest[i] == lead[i + 1]);
        }
        law_trimming(rest, core, tail);
    } else if core.len() > 0 {
        assert(text =~= core + tail);
        assert(text[0] == core[0]);
        lemma_trimmed_end_keeps(core, tail);
        lemma_trimmed_end_of_space(tail);
        assert(core + trimmed_end(tail) =~= core);
    } else {
        assert(text =~= tail);
        lemma_trimmed_start_of_space(tail);
        assert(trimmed_end(seq![]) =~= seq![]);
        assert(core =~= seq![]);
    }
}

/// Trimming the end leaves nothing of white space.
proof fn lemma_trimmed_end_of_space(text: Seq<char>)
    requires
        forall|i: int| 0 <= i < text.len() ==> is_white_space(#[trigger] text[i]),
    ensures
        trimmed_end(text) == Seq::<char>::empty(),
    decreases text.len(),
{
    if text.len() > 0 {
        assert(is_white_space(text[text.len() - 1]));
        lemma_trimmed_end_of_space(text.drop_last());
    }
}

/// Trimming the start leaves nothing of white space.
proof fn lemma_trimmed_start_of_space(text: Seq<char>)
    requires
        forall|i: int| 0 <= i < text.len() ==> is_white_space(#[trigger] text[i]),
    ensures
        trimmed_start(text) == Seq::<char>::empty(),
    decreases text.len(),
{
    if text.len() > 0 {
        let rest = text.drop_first();
        assert(is_white_space(text[0]));
        assert forall|i: int| 0 <= i < rest.len() implies is_white_space(#[trigger] rest[i]) by {
            assert(rest[i] == text[i + 1]);
        }
        lemma_trimmed_start_of_space(rest);
    }
}

/// Two codes are the same in lower case exactly where they are equal, or where one is a letter from
/// `A` to `Z` and the other the same letter from `a` to `z`. A code in lower case is never one of the
/// letters from `A` to `Z`.
pub proof fn law_case_of_letters(one: u32, other: u32)
    ensures
        ascii_lower(one) == ascii_lower(other) <==> {
            ||| one == other
            ||| 'A' as u32 <= one <= 'Z' as u32 && other - one == 'a' as u32 - 'A' as u32
            ||| 'A' as u32 <= other <= 'Z' as u32 && one - other == 'a' as u32 - 'A' as u32
        },
        !('A' as u32 <= ascii_lower(one) <= 'Z' as u32),
        !('A' as u32 <= one <= 'Z' as u32) ==> ascii_lower(one) == one,
{
}

/// What stands before the first of a character is the head that does not hold it, and a text that
/// does not hold it has no such head.
pub proof fn law_text_before(head: Seq<char>, c: char, tail: Seq<char>, at: int)
    requires
        forall|i: int| 0 <= i < head.len() ==> head[i] != c,
    ensures
        text_before(head + seq![c] + tail, c) == Some(head),
        text_before(head, c) is None,
        first_at(head + seq![c] + tail, c, at) <==> at == head.len(),
        !first_at(head, c, at),
{
    let text = head + seq![c] + tail;
    let len = head.len() as int;
    assert(text[len] == c);
    assert forall|i: int| 0 <= i < len implies text[i] != c by {
        assert(text[i] == head[i]);
    }
    assert(first_at(text, c, len));
    lemma_text_before(text, c, len);
    assert(text.take(len) =~= head);
}

/// White space before a text does not outlast trimming.
pub proof fn lemma_trimming_drops_lead(lead: Seq<char>, text: Seq<char>)
    requires
        forall|i: int| 0 <= i < lead.len() ==> is_white_space(#[trigger] lead[i]),
    ensures
        trimmed(lead + text) == trimmed(text),
    decreases lead.len(),
{
    let whole = lead + text;
    if lead.len() > 0 {
        let rest = lead.drop_first();
        assert(is_white_space(lead[0]));
        assert(whole[0] == lead[0]);
        assert(whole.drop_first() =~= rest + text);
        assert forall|i: int| 0 <= i < rest.len() implies is_white_space(#[trigger] rest[i]) by {
            assert(rest[i] == lead[i + 1]);
        }
        lemma_trimming_drops_lead(rest, text);
    } else {
        assert(whole =~= text);
    }
}

} // verus!
