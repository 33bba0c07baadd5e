use anthropic_provider::text::{
    chars_of, decimal_text, find_chars, is_white_space, join, lines, slice_chars, str_contains,
    str_eq, strip_prefix, trim, trim_end_matches,
};

#[test]
fn white_space_is_what_std_says() {
    for c in '\0'..=char::MAX {
        assert_eq!(is_white_space(c), c.is_whitespace(), "{:?}", c);
    }
}

#[test]
fn trim_agrees_with_std() {
    for s in ["", " ", " a ", "a", "\t a b\u{3000}", "\u{a0}x\r", "é \n"] {
        assert_eq!(trim(s), s.trim());
    }
}

#[test]
fn lines_agree_with_std() {
    for s in ["", "\n", "a", "a\n", "a\r\nb", "a\r", "\r\n\r\n", "a\n\nb\r\r\n", "é\n\u{1f389}\n\n"] {
        let expected: Vec<String> = s.lines().map(|l| l.to_string()).collect();
        assert_eq!(lines(s), expected);
    }
}

#[test]
fn searching_agrees_with_std() {
    for s in ["", "a", "thinking", "summarized_thinking", "thinkin", "thithinking!"] {
        assert_eq!(str_contains(s, "thinking"), s.contains("thinking"));
        assert_eq!(str_contains(s, ""), s.contains(""));
    }
    let text = chars_of("é\n\nx\n\n");
    let blank = chars_of("\n\n");
    assert_eq!(find_chars(&text, &blank, 0), Some(1));
    assert_eq!(find_chars(&text, &blank, 2), Some(4));
    assert_eq!(find_chars(&text, &blank, 5), None);
    assert_eq!(find_chars(&text, &blank, 99), None);
}

#[test]
fn prefixes_agree_with_std() {
    for s in ["", "data", "data:", "data: x", "data:x", "dat: é"] {
        assert_eq!(strip_prefix(s, "data:"), s.strip_prefix("data:").map(|r| r.to_string()));
    }
}

#[test]
fn trailing_slashes_agree_with_std() {
    for s in ["", "/", "//", "a/", "a//", "a/b", "http://host/"] {
        assert_eq!(trim_end_matches(s, '/'), s.trim_end_matches('/'));
    }
}

#[test]
fn joining_and_slicing() {
    assert_eq!(join(&vec![], "\n"), "");
    assert_eq!(join(&vec!["a".to_string()], "\n"), "a");
    assert_eq!(join(&vec!["a".to_string(), "".to_string(), "b".to_string()], "\n"), "a\n\nb");
    assert_eq!(slice_chars("añb", 1, 2), "ñ");
    assert!(str_eq("añ", "añ"));
    assert!(!str_eq("añ", "an"));
}

#[test]
fn decimal_agrees_with_std() {
    for n in [0usize, 7, 10, 99, 100, 4096, 65535, usize::MAX] {
        assert_eq!(decimal_text(n), n.to_string());
    }
}
