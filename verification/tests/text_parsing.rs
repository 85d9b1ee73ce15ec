use am_renderer::text::{
    chars_of, contains_str, ends_with, is_whitespace, parse_unsigned, split_on, split_whitespace,
    starts_with, str_eq, trim,
};

#[test]
fn whitespace_matches_std() {
    for u in 0u32..0x3100 {
        if let Some(c) = char::from_u32(u) {
            assert_eq!(is_whitespace(c), c.is_whitespace(), "U+{:04X}", u);
        }
    }
}

#[test]
fn split_whitespace_matches_std() {
    let samples = [
        "",
        "   ",
        "local cubicBezier 0.0 0.0 0.58 1.0",
        "  a\tb\n\nc  ",
        "x\u{3000}y\u{00A0}z",
        "single",
    ];
    for s in samples {
        let ours = split_whitespace(s);
        let std: Vec<String> = s.split_whitespace().map(|t| t.to_string()).collect();
        assert_eq!(ours, std, "{:?}", s);
    }
}

#[test]
fn trim_matches_std() {
    for s in ["", "  ", " a b ", "\u{2003}x\u{2029}", "abc", "\t\n0.5\r"] {
        assert_eq!(trim(s), s.trim(), "{:?}", s);
    }
}

#[test]
fn split_on_matches_std() {
    for s in ["", ",", "1,2", "540.000000,960.000000,0.000000", "a,,b,", ",x"] {
        let ours = split_on(s, ',');
        let std: Vec<String> = s.split(',').map(|t| t.to_string()).collect();
        assert_eq!(ours, std, "{:?}", s);
    }
}

#[test]
fn parse_unsigned_matches_std() {
    let samples = [
        "", "+", "-", "0", "+7", "-7", "42", "4294967295", "4294967296", "18446744073709551615",
        "18446744073709551616", "12a", " 1", "007", "１",
    ];
    for s in samples {
        assert_eq!(parse_unsigned(s, u32::MAX as u64), s.parse::<u32>().ok().map(|v| v as u64), "{:?}", s);
        assert_eq!(parse_unsigned(s, u64::MAX), s.parse::<u64>().ok(), "{:?}", s);
    }
}

#[test]
fn prefixes_suffixes_and_substrings() {
    assert!(starts_with("audio/mpeg", "audio/"));
    assert!(!starts_with("aud", "audio/"));
    assert!(ends_with("song.mp3", ".mp3"));
    assert!(!ends_with("song.mp3x", ".mp3"));
    assert!(starts_with("x", ""));
    assert!(contains_str("error: Query returned no rows", "Query returned no rows"));
    assert!(!contains_str("abc", "abd"));
    assert!(contains_str("abc", ""));
    assert!(str_eq("héllo", "héllo"));
    assert!(!str_eq("hello", "hellö"));
    assert_eq!(chars_of("añb"), vec!['a', 'ñ', 'b']);
}
