use rustimate::text::{
    chars_contain, chars_equal, is_whitespace, line_spans, range_contains, range_ends_with,
    range_starts_with, str_contains, str_equal, to_chars, trim_range,
};

fn lines(text: &str) -> Vec<String> {
    let chars = to_chars(text);
    line_spans(&chars)
        .iter()
        .map(|&(a, b)| chars[a..b].iter().collect::<String>())
        .collect()
}

fn trimmed(text: &str) -> String {
    let chars = to_chars(text);
    let (a, b) = trim_range(&chars, 0, chars.len());
    chars[a..b].iter().collect()
}

#[test]
fn to_chars_keeps_every_character() {
    assert_eq!(to_chars("aé😀"), vec!['a', 'é', '😀']);
    assert!(to_chars("").is_empty());
}

#[test]
fn equality_compares_characters() {
    assert!(str_equal("scene_block", "scene_block"));
    assert!(!str_equal("scene_block", "scene_bloc"));
    assert!(!str_equal("abc", "abd"));
    assert!(str_equal("", ""));
    assert!(chars_equal(&vec!['x'], &vec!['x']));
}

#[test]
fn contains_finds_infixes() {
    assert!(str_contains("  mode: editor", "mode:"));
    assert!(str_contains("mode:", "mode:"));
    assert!(!str_contains("mode", "mode:"));
    assert!(str_contains("anything", ""));
    assert!(str_contains("", ""));
    assert!(!str_contains("", "a"));
    assert!(str_contains("été mode:", "mode:"));
    assert!(chars_contain(&to_chars("abcabd"), &to_chars("abd")));
}

#[test]
fn range_search_stays_inside_the_range() {
    let chars = to_chars("code { scene");
    assert!(range_contains(&chars, 0, 4, &to_chars("code")));
    assert!(!range_contains(&chars, 1, 12, &to_chars("code")));
    assert!(range_contains(&chars, 5, 12, &to_chars("scene")));
    assert!(!range_contains(&chars, 5, 11, &to_chars("scene")));
    assert!(range_starts_with(&chars, 7, 12, &to_chars("sce")));
    assert!(!range_starts_with(&chars, 6, 12, &to_chars("sce")));
    assert!(range_ends_with(&chars, 0, 6, &to_chars("e {")));
    assert!(!range_ends_with(&chars, 0, 2, &to_chars("code")));
}

#[test]
fn whitespace_is_the_unicode_set() {
    for c in [' ', '\t', '\n', '\r', '\u{b}', '\u{c}', '\u{85}', '\u{a0}', '\u{1680}', '\u{2000}', '\u{200a}', '\u{2028}', '\u{2029}', '\u{202f}', '\u{205f}', '\u{3000}'] {
        assert!(is_whitespace(c), "{:?}", c);
        assert_eq!(is_whitespace(c), c.is_whitespace());
    }
    for c in ['a', '\u{200b}', '\u{feff}', '_', '\u{0}'] {
        assert!(!is_whitespace(c), "{:?}", c);
        assert_eq!(is_whitespace(c), c.is_whitespace());
    }
}

#[test]
fn trim_matches_std() {
    for s in ["", "   ", "  a b  ", "\u{3000}x\u{a0}", "x", "\t\n mode: editor \r"] {
        assert_eq!(trimmed(s), s.trim(), "{:?}", s);
    }
    let chars = to_chars("ab  cd  ");
    assert_eq!(trim_range(&chars, 2, 8), (4, 6));
    assert_eq!(trim_range(&chars, 2, 4), (4, 4));
}

#[test]
fn lines_match_std() {
    for s in [
        "",
        "\n",
        "a",
        "a\n",
        "a\nb",
        "a\r\nb\r\n",
        "a\rb\r",
        "\n\n",
        "x\r",
        "one\n\ntwo\n",
        "é\r\n😀",
        "\r\n",
    ] {
        let expected: Vec<String> = s.lines().map(|l| l.to_string()).collect();
        assert_eq!(lines(s), expected, "{:?}", s);
    }
}

#[test]
fn line_spans_are_character_ranges() {
    let chars = to_chars("ab\r\ncd\n");
    assert_eq!(line_spans(&chars), vec![(0, 2), (4, 6)]);
}

#[test]
fn no_line_holds_a_line_feed() {
    let text = "a\n\r\nb\r\r\n\nc";
    for line in lines(text) {
        assert!(!line.contains('\n'));
    }
    assert_eq!(lines(text), vec!["a", "", "b\r", "", "c"]);
}
