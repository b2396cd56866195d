use niri_android_monitor::text::{
    decimal_text, is_blank, is_white_space, join_words, read_signed, read_unsigned, same_text,
    signed_text,
};

#[test]
fn white_space_is_that_of_unicode() {
    for code in 0..=0x10ffff {
        if let Some(c) = char::from_u32(code) {
            assert_eq!(is_white_space(c), c.is_whitespace(), "{code:x}");
        }
    }
}

#[test]
fn blank_text_is_what_trimming_leaves_nothing_of() {
    for text in ["", " ", "\t\r\n", "\u{3000}\u{a0}", " x ", "x", "\u{200b}"] {
        assert_eq!(is_blank(text), text.trim().is_empty(), "{text:?}");
    }
}

#[test]
fn writes_decimal_numbers() {
    for n in [0, 7, 10, 99, 100, 1920, 57421, u32::MAX as u64, u64::MAX] {
        assert_eq!(decimal_text(n), n.to_string());
    }
}

#[test]
fn reads_numbers_as_the_standard_library_does() {
    for text in [
        "", "+", "-", "0", "+0", "-0", "007", "+42", "++1", "1 ", " 1", "1_0", "0x10", "65535",
        "65536", "4294967295", "4294967296", "00000000000000000000000000000001", "1a", "\u{661}",
        "99999999999999999999999999999999999999999999999999",
    ] {
        assert_eq!(
            read_unsigned(text, u32::MAX as u64).map(|n| n as u32),
            text.parse::<u32>().ok(),
            "{text:?}"
        );
        assert_eq!(
            read_unsigned(text, u16::MAX as u64).map(|n| n as u16),
            text.parse::<u16>().ok(),
            "{text:?}"
        );
        assert_eq!(read_unsigned(text, u64::MAX), text.parse::<u64>().ok(), "{text:?}");
    }
}

#[test]
fn reads_signed_numbers_as_the_standard_library_does() {
    for text in [
        "", "+", "-", "0", "+0", "-0", "-007", "+42", "-42", "--1", "+-1", "-+1", "- 1", "-1a", "1-",
        "2147483647", "2147483648", "-2147483648", "-2147483649", "-99999999999999999999999",
    ] {
        assert_eq!(read_signed(text), text.parse::<i32>().ok(), "{text:?}");
    }
    for n in [0, 5, -5, 3440, i32::MIN, i32::MAX] {
        assert_eq!(signed_text(n), n.to_string());
        assert_eq!(read_signed(&signed_text(n)), Some(n));
    }
}

#[test]
fn what_is_written_is_read_back() {
    for n in [0u64, 9, 10, 12345, u64::MAX] {
        assert_eq!(read_unsigned(&decimal_text(n), u64::MAX), Some(n));
    }
}

#[test]
fn joins_words_with_spaces() {
    assert_eq!(join_words(&vec![]), "");
    assert_eq!(join_words(&vec!["on".to_string()]), "on");
    let words = vec!["custom-mode".to_string(), "a b".to_string(), "".to_string()];
    assert_eq!(join_words(&words), words.join(" "));
}

#[test]
fn compares_text() {
    assert!(same_text("auto", "auto"));
    assert!(!same_text("auto", "Auto"));
    assert!(!same_text("", " "));
}
