use scribecli::text;

fn samples() -> Vec<&'static str> {
    vec![
        "",
        " ",
        "\n",
        "\r\n",
        "a",
        "  a b  ",
        "\u{3000}wide\u{a0}",
        "one\ntwo",
        "one\r\ntwo\r\n",
        "one\n\nthree\n",
        "a\rb",
        "last\r",
        "aXbXXc",
        "XX",
        "[SPEAKER_TURN]hello[SPEAKER_TURN]",
        "Grüße, 世界",
    ]
}

#[test]
fn whitespace_is_unicode_whitespace() {
    for code in 0..0x11_0000_u32 {
        if let Some(c) = char::from_u32(code) {
            assert_eq!(text::is_whitespace(c), c.is_whitespace(), "{code:x}");
        }
    }
}

#[test]
fn trimming_and_lines_agree_with_std() {
    for s in samples() {
        assert_eq!(text::trim(s), s.trim());
        let expected: Vec<String> = s.lines().map(str::to_string).collect();
        assert_eq!(text::lines(s), expected);
        assert_eq!(text::first_line(s), s.lines().next().unwrap_or(""));
        assert_eq!(text::lowercase(s), s.to_ascii_lowercase());
        assert_eq!(text::byte_length(s), s.len());
    }
}

#[test]
fn searching_agrees_with_std() {
    for s in samples() {
        for needle in samples() {
            assert_eq!(text::contains(s, needle), s.contains(needle));
            assert_eq!(text::starts_with(s, needle), s.starts_with(needle));
            assert_eq!(text::ends_with(s, needle), s.ends_with(needle));
            assert_eq!(text::same(s, needle), s == needle);
            assert_eq!(text::before(s, needle), s < needle);
            if !needle.is_empty() {
                assert_eq!(text::replace(s, needle, "-"), s.replace(needle, "-"));
            }
        }
    }
}

#[test]
fn concatenation_keeps_order() {
    assert_eq!(text::cat2("a", "b"), "ab");
    assert_eq!(text::cat3("a", "b", "c"), "abc");
    assert_eq!(text::cat4("a", "b", "c", "d"), "abcd");
    assert_eq!(text::cat5("a", "b", "c", "d", "e"), "abcde");
    let parts = vec!["a".to_string(), String::new(), "c".to_string()];
    assert_eq!(text::join(&parts, ", "), "a, , c");
    assert_eq!(text::join(&Vec::new(), ", "), "");
}

#[test]
fn numbers_are_read_as_std_reads_them() {
    let inputs = [
        "", "0", "7", "007", "+7", "-7", "+", " 7", "7 ", "1_000", "4294967295", "4294967296",
        "18446744073709551615", "18446744073709551616", "99999999999999999999999",
        "9999999999999999999999x",
    ];
    for raw in inputs {
        match (text::parse_u64(raw), raw.parse::<u64>()) {
            (Ok(a), Ok(b)) => assert_eq!(a, b),
            (Err(a), Err(b)) => assert_eq!(a.message(), b.to_string(), "{raw}"),
            (a, b) => panic!("{raw}: {a:?} {b:?}"),
        }
        match (text::parse_u32(raw), raw.parse::<u32>()) {
            (Ok(a), Ok(b)) => assert_eq!(a, b),
            (Err(a), Err(b)) => assert_eq!(a.message(), b.to_string(), "{raw}"),
            (a, b) => panic!("{raw}: {a:?} {b:?}"),
        }
    }
}

#[test]
fn numbers_are_written_and_read_back() {
    for n in [0, 1, 9, 10, 99, 100, 1234567890, u64::MAX] {
        assert_eq!(text::decimal_text(n), n.to_string());
        assert_eq!(text::parse_u64(&text::decimal_text(n)).unwrap(), n);
    }
}
