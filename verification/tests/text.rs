use bytehub::text::{
    chars_of, is_white_space, parse_number, push_bool, push_decimal, same_text, split_all,
    split_first, split_last, trim,
};

#[test]
fn white_space_is_that_of_unicode() {
    for u in 0u32..=0x10ffff {
        if let Some(c) = char::from_u32(u) {
            assert_eq!(is_white_space(c), c.is_whitespace(), "{:x}", u);
        }
    }
}

#[test]
fn trimming() {
    for text in ["", " ", "a", " a b\t", "\u{3000}x\u{a0}\n", "  \u{2029} ", "\u{200b}y"] {
        assert_eq!(trim(text), text.trim());
    }
}

#[test]
fn characters_and_comparison() {
    assert_eq!(chars_of("aß€"), vec!['a', 'ß', '€']);
    assert!(same_text("server", "server"));
    assert!(!same_text("server", "Server"));
    assert!(!same_text("server", "serve"));
    assert!(same_text("", ""));
}

#[test]
fn splitting() {
    for text in ["", ":", "a:b", "a:b:c", "abc", "::1:80", "ü:ö"] {
        assert_eq!(split_first(text, ':'), text.split_once(':'));
        assert_eq!(split_last(text, ':'), text.rsplit_once(':'));
        assert_eq!(split_all(text, ':'), text.split(':').collect::<Vec<&str>>());
    }
}

#[test]
fn numbers_up_to_a_limit() {
    let texts = [
        "", "+", "-", "-1", "0", "00", "+0", "++1", "7", "+255", "255", "256", "65535", "65536",
        "0000000000000000000000255", "18446744073709551616", "1 ", " 1", "1_0", "0x1", "٣", "1.0",
    ];
    for text in texts {
        assert_eq!(parse_number(text, 255), text.parse::<u8>().ok().map(u64::from), "{}", text);
        assert_eq!(parse_number(text, 65535), text.parse::<u16>().ok().map(u64::from), "{}", text);
        assert_eq!(parse_number(text, u64::MAX), text.parse::<u64>().ok(), "{}", text);
    }
    assert_eq!(parse_number("18446744073709551615", u64::MAX), Some(u64::MAX));
}

#[test]
fn numbers_read_back() {
    for n in [0u64, 9, 10, 99, 100, 65535, 1_000_000_007, u64::MAX] {
        let mut text = String::from("=");
        push_decimal(&mut text, n);
        assert_eq!(text, format!("={}", n));
        assert_eq!(parse_number(&text[1..], u64::MAX), Some(n));
    }
}

#[test]
fn truth_values() {
    let mut text = String::new();
    push_bool(&mut text, true);
    push_bool(&mut text, false);
    assert_eq!(text, "truefalse");
}
