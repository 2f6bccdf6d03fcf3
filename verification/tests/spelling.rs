use napcat_winboot::message::{decimal_text, last_error};
use napcat_winboot::wide::{
    decode_lossy, encode_wide, path_to_wide, text_before_nul, wide_null,
};

#[test]
fn wide_text_is_utf16_with_a_closing_zero() {
    assert_eq!(wide_null("QQ"), vec![0x51, 0x51, 0]);
    assert_eq!(wide_null(""), vec![0]);
    assert_eq!(wide_null("\u{1f600}"), vec![0xd83d, 0xde00, 0]);
    assert_eq!(wide_null("\u{ffff}\u{10000}\u{10ffff}"), vec![
        0xffff, 0xd800, 0xdc00, 0xdbff, 0xdfff, 0
    ]);
}

#[test]
fn every_char_is_spelled_as_the_standard_library_spells_it() {
    for c in '\0'..=char::MAX {
        let mut buffer = [0u16; 2];
        let expected = c.encode_utf16(&mut buffer).to_vec();
        let text = c.to_string();
        let units = encode_wide(&text);
        assert_eq!(units, expected);
        assert_eq!(decode_lossy(&units), text);
    }
}

#[test]
fn paths_keep_units_that_are_no_text() {
    assert_eq!(path_to_wide(&[0x43, 0xd800, 0x5c]), vec![0x43, 0xd800, 0x5c, 0]);
}

#[test]
fn lone_surrogates_read_as_replacement_characters() {
    let units = [0xd834, 0xdd1e, 0x6d, 0x75, 0x73, 0xdd1e, 0x69, 0x63, 0xd834];
    assert_eq!(decode_lossy(&units), "\u{1d11e}mus\u{fffd}ic\u{fffd}");
    assert_eq!(decode_lossy(&[0xd800, 0xd800, 0xdc00]), "\u{fffd}\u{10000}");
    assert_eq!(decode_lossy(&[]), "");
}

#[test]
fn lossy_reading_agrees_with_the_standard_library() {
    let samples = [0u16, 0x41, 0xd7ff, 0xd800, 0xdbff, 0xdc00, 0xdfff, 0xe000, 0xffff];
    for a in samples {
        for b in samples {
            for c in samples {
                let units = [a, b, c];
                assert_eq!(decode_lossy(&units), String::from_utf16_lossy(&units));
            }
        }
    }
}

#[test]
fn a_buffer_reads_up_to_its_first_zero() {
    assert_eq!(text_before_nul(&[0x51, 0x51, 0, 0x58, 0]), "QQ");
    assert_eq!(text_before_nul(&[0x51, 0x51]), "QQ");
    assert_eq!(text_before_nul(&[0, 0x51]), "");
    assert_eq!(text_before_nul(&[]), "");
}

#[test]
fn wide_text_reads_back() {
    for text in ["", "C:\\Program Files\\QQ\\QQ.exe", "\u{817e}\u{8baf}\u{1f427}"] {
        assert_eq!(text_before_nul(&wide_null(text)), text);
    }
}

#[test]
fn codes_are_written_in_decimal() {
    for n in [0, 1, 9, 10, 99, 100, 126, 2147483648, u32::MAX] {
        assert_eq!(decimal_text(n), n.to_string());
    }
}

#[test]
fn a_failed_call_is_reported_with_its_code() {
    assert_eq!(
        last_error("CreateRemoteThread failed", 5),
        "CreateRemoteThread failed, GetLastError=5"
    );
}
