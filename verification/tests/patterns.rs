use napcat_winboot::pattern::{matches_at, parse_pattern};
use napcat_winboot::patch::patches;
use napcat_winboot::text::{chars_of, is_whitespace, position_of, to_ascii_lower, trim_bounds};

#[test]
fn pattern_mixes_bytes_and_wildcards() {
    assert_eq!(
        parse_pattern("48 8b ?? fF 00"),
        Some(vec![Some(0x48), Some(0x8b), None, Some(0xff), Some(0)])
    );
}

#[test]
fn pattern_takes_any_white_space_between_words() {
    assert_eq!(parse_pattern(" \t48\n\u{3000}??\u{a0}"), Some(vec![Some(0x48), None]));
    assert_eq!(parse_pattern(""), Some(vec![]));
    assert_eq!(parse_pattern(" \r\n"), Some(vec![]));
}

#[test]
fn pattern_numbers_may_be_short_long_or_signed() {
    assert_eq!(parse_pattern("a"), Some(vec![Some(10)]));
    assert_eq!(parse_pattern("000ff"), Some(vec![Some(255)]));
    assert_eq!(parse_pattern("+7f"), Some(vec![Some(0x7f)]));
}

#[test]
fn pattern_with_another_word_is_none() {
    for text in ["?", "???", "4g", "100", "-1", "+", "++1", "0x48", "48 8B zz", "48\u{200b}"] {
        assert_eq!(parse_pattern(text), None, "{text:?}");
    }
}

#[test]
fn pattern_words_read_as_the_standard_library_reads_them() {
    let alphabet = ['0', '1', '9', 'a', 'f', 'F', 'g', '+', '-', '?', 'G', '@', '`', ':', '/'];
    let mut words: Vec<String> = Vec::new();
    for a in alphabet {
        words.push(a.to_string());
        for b in alphabet {
            words.push(format!("{a}{b}"));
            for c in alphabet {
                words.push(format!("{a}{b}{c}"));
            }
        }
    }
    for word in words {
        let expected = if word == "??" {
            Some(vec![None])
        } else {
            u8::from_str_radix(&word, 16).ok().map(|byte| vec![Some(byte)])
        };
        assert_eq!(parse_pattern(&word), expected, "{word:?}");
    }
}

#[test]
fn white_space_is_that_of_unicode() {
    for c in '\0'..=char::MAX {
        assert_eq!(is_whitespace(c), c.is_whitespace(), "{c:?}");
    }
}

#[test]
fn ascii_lower_changes_letters_only() {
    for code in 0u32..=255 {
        let expected = (code as u8).to_ascii_lowercase() as u32;
        assert_eq!(to_ascii_lower(code), expected);
    }
    assert_eq!(to_ascii_lower(0x141), 0x141);
}

#[test]
fn trimming_and_searching_chars() {
    let chars = chars_of(" \u{1f600}a, b ");
    assert_eq!(chars.len(), 7);
    assert_eq!(trim_bounds(&chars, 0, 7), (1, 6));
    assert_eq!(trim_bounds(&chars, 4, 5), (5, 5));
    assert_eq!(position_of(&chars, 0, 7, ','), Some(3));
    assert_eq!(position_of(&chars, 4, 7, ','), None);
}

#[test]
fn pattern_fits_where_its_bytes_stand() {
    let pattern = vec![Some(1), None, Some(3)];
    let bytes = [0, 1, 9, 3, 1, 3];
    assert!(!matches_at(&pattern, &bytes, 0));
    assert!(matches_at(&pattern, &bytes, 1));
    assert!(!matches_at(&pattern, &bytes, 4));
    assert!(!matches_at(&pattern, &bytes, usize::MAX));
    assert!(matches_at(&vec![], &bytes, 6));
    assert!(!matches_at(&vec![], &bytes, 7));
}

#[test]
fn each_patch_stays_in_what_its_pattern_matches() {
    let list = patches();
    let lengths: Vec<usize> = list
        .iter()
        .map(|patch| parse_pattern(patch.pattern).unwrap().len())
        .collect();
    assert_eq!(lengths, vec![50, 34, 36]);
    for (patch, length) in list.iter().zip(lengths) {
        assert!(patch.opcode_offset + patch.replacement.len() <= length);
    }
}

#[test]
fn patches_replace_the_bytes_they_are_meant_for() {
    let list = patches();
    assert_eq!(list[0].name, "normal recall preserve original");
    assert_eq!(list[1].name, "traceless recall preserve original");
    assert_eq!(list[2].name, "notify recall update preserve original");
    let first = parse_pattern(list[0].pattern).unwrap();
    assert_eq!(first[6..9], [Some(0x48), Some(0x85), Some(0xc9)]);
    assert_eq!(list[0].replacement, vec![0x48, 0x31, 0xc9]);
    let second = parse_pattern(list[1].pattern).unwrap();
    assert_eq!(second[6..8], [Some(0x3c), Some(0x01)]);
    assert_eq!(list[1].replacement, vec![0x38, 0xc0]);
    let third = parse_pattern(list[2].pattern).unwrap();
    assert_eq!(third[0..5], [Some(0x48), Some(0x83), Some(0x7a), Some(0x10), Some(0x00)]);
    assert_eq!(list[2].replacement, vec![0x48, 0x31, 0xc0, 0x90, 0x90]);
}
