use waydroid_tray::text::{chars_of, find_in, is_whitespace, join_strings, line_ranges, trim_range};

const SAMPLES: [&str; 9] = [
    "",
    "\n",
    "a",
    "a\nb",
    "a\r\nb\r\n",
    "foo\nbar\n\r\nbaz\r",
    "\n\n x \n",
    "\r",
    "é\u{2028}ü\n",
];

#[test]
fn whitespace_is_unicode_white_space() {
    for c in (0..=0x10ffffu32).filter_map(char::from_u32) {
        assert_eq!(is_whitespace(c), c.is_whitespace(), "{:x}", c as u32);
    }
}

#[test]
fn line_ranges_match_str_lines() {
    for text in SAMPLES {
        let chars = chars_of(text);
        let lines: Vec<String> = line_ranges(&chars)
            .iter()
            .map(|&(a, b)| chars[a..b].iter().collect())
            .collect();
        let expected: Vec<&str> = text.lines().collect();
        assert_eq!(lines, expected, "{text:?}");
    }
}

#[test]
fn trim_range_matches_str_trim() {
    for text in SAMPLES.iter().chain(&[" \u{3000}x y\t", "\u{85}", "  "]) {
        let chars = chars_of(text);
        let (a, b) = trim_range(&chars, 0, chars.len());
        let trimmed: String = chars[a..b].iter().collect();
        assert_eq!(trimmed, text.trim(), "{text:?}");
    }
}

#[test]
fn find_in_gives_the_first_match_in_range() {
    let chars = chars_of("a=b=c");
    assert_eq!(find_in(&chars, '=', 0, 5), Some(1));
    assert_eq!(find_in(&chars, '=', 2, 5), Some(3));
    assert_eq!(find_in(&chars, '=', 4, 5), None);
}

#[test]
fn join_matches_slice_join() {
    let parts = vec!["a".to_string(), String::new(), "c".to_string()];
    assert_eq!(join_strings(&parts, ", "), parts.join(", "));
    assert_eq!(join_strings(&Vec::new(), ", "), "");
}
