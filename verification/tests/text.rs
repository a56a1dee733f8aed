use epp_router::text::{decimal, is_white_space, prefixed, strip_scheme, trim, utf8_text};

#[test]
fn strip_scheme_handles_all_forms() {
    assert_eq!(strip_scheme("http://10.0.0.1:8000"), "10.0.0.1:8000");
    assert_eq!(strip_scheme("https://10.0.0.1:8000"), "10.0.0.1:8000");
    assert_eq!(strip_scheme("10.0.0.1:8000"), "10.0.0.1:8000");
}

#[test]
fn strip_scheme_takes_off_one_scheme_at_the_start() {
    assert_eq!(strip_scheme("http://https://a"), "https://a");
    assert_eq!(strip_scheme("https://http://a"), "http://a");
    assert_eq!(strip_scheme("HTTP://a"), "HTTP://a");
    assert_eq!(strip_scheme("tcp://a"), "tcp://a");
    assert_eq!(strip_scheme(" http://a"), " http://a");
    assert_eq!(strip_scheme("http:/"), "http:/");
    assert_eq!(strip_scheme("http://"), "");
    assert_eq!(strip_scheme("https://\u{e9}\u{4e16}"), "\u{e9}\u{4e16}");
    assert_eq!(strip_scheme(""), "");
}

#[test]
fn decimal_writes_numbers_as_the_standard_library_does() {
    for n in [0u64, 1, 9, 10, 11, 99, 100, 101, 1234567890, u64::MAX - 1, u64::MAX] {
        assert_eq!(decimal(n), n.to_string());
    }
    for n in 0..5000u64 {
        assert_eq!(decimal(n), n.to_string());
    }
    assert_eq!(decimal(u64::MAX), "18446744073709551615");
}

#[test]
fn decimal_texts_read_back() {
    for n in [0u64, 7, 70, 1u64 << 40, u64::MAX] {
        assert_eq!(decimal(n).parse::<u64>(), Ok(n));
    }
}

#[test]
fn prefixed_puts_the_prefix_first() {
    assert_eq!(prefixed("a: ", "b"), "a: b");
    assert_eq!(prefixed("", ""), "");
}

#[test]
fn white_space_is_what_unicode_says() {
    for code in 0..=0x10ffffu32 {
        if let Some(c) = char::from_u32(code) {
            assert_eq!(is_white_space(c), c.is_whitespace(), "{code:x}");
        }
    }
}

#[test]
fn trim_takes_white_space_off_both_ends() {
    for s in [
        "",
        " ",
        "\t\n ",
        "10.0.0.1",
        " 10.0.0.1",
        "10.0.0.1\n",
        "  10.0.0.1  ",
        " a b ",
        "\u{3000}\u{e9} \u{4e16}\u{a0}",
        "\u{200b}x\u{200b}",
    ] {
        assert_eq!(trim(s), s.trim());
    }
    assert_eq!(trim(" 10.0.0.1\n"), "10.0.0.1");
    assert_eq!(trim(" \t"), "");
}

#[test]
fn utf8_is_read_as_text() {
    assert_eq!(utf8_text(b""), Ok(String::new()));
    assert_eq!(utf8_text("{\"\u{e9}\u{1f600}\"}".as_bytes()), Ok("{\"\u{e9}\u{1f600}\"}".to_string()));
}

#[test]
fn bytes_that_are_no_utf8_are_refused_with_the_reason() {
    let bytes = [b'a', 0xff, b'b'];
    let expected = std::str::from_utf8(&bytes).unwrap_err().to_string();
    assert_eq!(utf8_text(&bytes), Err(expected));
    // An encoding that is cut short, one that is too long, and a surrogate.
    assert!(utf8_text(&[0xe4, 0xb8]).is_err());
    assert!(utf8_text(&[0xc0, 0x80]).is_err());
    assert!(utf8_text(&[0xed, 0xa0, 0x80]).is_err());
}
