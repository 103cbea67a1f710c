use mux::text::{
    chars_lt, chars_of, contains, format_u32, lines, parse_u32, split_once, str_eq,
    strip_newline_str, trim, trim_end, words,
};

const SAMPLES: &[&str] = &[
    "",
    "a",
    "a\nb",
    "a\nb\n",
    "a\r\nb\r\n",
    "a\r",
    "\n\n",
    "x\n\ny\r\r\n z ",
    "  lead and trail  ",
    "\u{3000}wide\u{a0}\u{2028}",
    "tab\tsep\u{85}",
    "\u{200b}zero width",
];

#[test]
fn trim_matches_std() {
    for s in SAMPLES {
        assert_eq!(trim(s), s.trim());
        assert_eq!(trim_end(s), s.trim_end());
    }
}

#[test]
fn trim_examples() {
    assert_eq!(trim("  a b \n"), "a b");
    assert_eq!(trim("\u{3000}x\u{a0}"), "x");
    assert_eq!(trim(""), "");
    assert_eq!(trim(" \t\n"), "");
    assert_eq!(trim_end("  a \n"), "  a");
}

#[test]
fn lines_match_std() {
    for s in SAMPLES {
        let expected: Vec<String> = s.lines().map(|l| l.to_string()).collect();
        assert_eq!(lines(s), expected);
    }
}

#[test]
fn lines_examples() {
    assert_eq!(lines("a\nb\r\n\nc"), vec!["a", "b", "", "c"]);
    assert_eq!(lines("a\n"), vec!["a"]);
    assert!(lines("").is_empty());
    assert_eq!(lines("a\r"), vec!["a\r"]);
}

#[test]
fn words_match_std() {
    for s in SAMPLES {
        let expected: Vec<String> = s.split_whitespace().map(|w| w.to_string()).collect();
        assert_eq!(words(s), expected);
    }
    assert_eq!(words("  12  34\t5 "), vec!["12", "34", "5"]);
}

#[test]
fn split_once_examples() {
    assert_eq!(
        split_once("@1\teditor\tx", '\t'),
        Some(("@1".to_string(), "editor\tx".to_string()))
    );
    assert_eq!(split_once("\t", '\t'), Some((String::new(), String::new())));
    assert_eq!(split_once("none", '\t'), None);
}

#[test]
fn contains_examples() {
    assert!(contains("can't find session: x", "can't find session"));
    assert!(contains("abc", ""));
    assert!(contains("abc", "abc"));
    assert!(!contains("ab", "abc"));
    assert!(!contains("abd", "bc"));
}

#[test]
fn strip_newline_examples() {
    assert_eq!(strip_newline_str("vim\n"), "vim");
    assert_eq!(strip_newline_str("vim\n\n"), "vim\n");
    assert_eq!(strip_newline_str("vim"), "vim");
    assert_eq!(strip_newline_str("\n"), "");
}

#[test]
fn parse_u32_matches_std() {
    for s in [
        "0", "42", "+7", "-1", "", "+", "-", "4294967295", "4294967296", " 1", "1 ", "007",
        "99999999999999999999", "12a", "١",
    ] {
        assert_eq!(parse_u32(s), s.parse::<u32>().ok(), "input {s:?}");
    }
}

#[test]
fn format_u32_examples() {
    assert_eq!(format_u32(0), "0");
    assert_eq!(format_u32(7), "7");
    assert_eq!(format_u32(10), "10");
    assert_eq!(format_u32(4294967295), "4294967295");
}

#[test]
fn parse_reads_back_format() {
    for n in [0u32, 1, 9, 10, 99, 100, 12345, u32::MAX] {
        assert_eq!(parse_u32(&format_u32(n)), Some(n));
        assert_eq!(format_u32(n), n.to_string());
    }
}

#[test]
fn string_order_matches_std() {
    let items = ["", "a", "b", "ab", "aa", "é", "z", "Z", "misc", "editor", "edit"];
    for a in items {
        for b in items {
            assert_eq!(chars_lt(&chars_of(a), &chars_of(b)), a < b, "{a:?} < {b:?}");
        }
    }
}

#[test]
fn str_eq_examples() {
    assert!(str_eq("0", "0"));
    assert!(!str_eq("0", "00"));
    assert!(!str_eq("a", "b"));
}
