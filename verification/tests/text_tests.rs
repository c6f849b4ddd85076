use flotilla::text::{append_decimal, contains, decode, first_two_pieces, join, lines, parse_u32};
use flotilla::text::{space, strip_prefix, trim};

#[test]
fn white_space_is_that_of_unicode() {
    for u in 0..=0x10ffffu32 {
        if let Some(c) = char::from_u32(u) {
            assert_eq!(space(c), c.is_whitespace(), "U+{:04X}", u);
        }
    }
}

#[test]
fn trimming_takes_white_space_from_both_ends() {
    for s in ["", " ", "a", " a ", "\t a b \r\n", "\u{3000}x\u{a0}", "\u{200b}x"] {
        assert_eq!(trim(s), s.trim());
    }
}

#[test]
fn trimming_twice_changes_nothing_more() {
    let once = trim("  a b\n");
    assert_eq!(once, "a b");
    assert_eq!(trim(&once), once);
}

#[test]
fn lines_end_at_line_feeds() {
    for s in [
        "", "\n", "a", "a\n", "a\nb", "a\r\nb\r\n", "a\r", "\r\n\r\n", "a\n\nb", "a\rb\n", "\r\r\n",
    ] {
        let expected: Vec<String> = s.lines().map(|l| l.to_string()).collect();
        assert_eq!(lines(s), expected, "{:?}", s);
    }
}

#[test]
fn the_first_two_pieces_need_a_separator() {
    assert_eq!(first_two_pieces("0.42.2", '.'), Some(("0".to_string(), "42".to_string())));
    assert_eq!(first_two_pieces("0.", '.'), Some(("0".to_string(), String::new())));
    assert_eq!(first_two_pieces(".", '.'), Some((String::new(), String::new())));
    assert_eq!(first_two_pieces("042", '.'), None);
}

#[test]
fn prefixes_are_stripped_whole() {
    assert_eq!(strip_prefix("zellij 0.40", "zellij "), Some("0.40".to_string()));
    assert_eq!(strip_prefix("zellij", "zellij "), None);
    assert_eq!(strip_prefix("Zellij 0.40", "zellij "), None);
}

#[test]
fn numbers_are_read_as_unsigned_decimals() {
    for s in [
        "", "+", "-", "0", "+7", "-0", "007", "40", "4294967295", "4294967296", "99999999999999",
        "4 ", " 4", "4a", "++4", "٣",
    ] {
        assert_eq!(parse_u32(s), s.parse::<u32>().ok(), "{:?}", s);
    }
}

#[test]
fn decimals_read_back() {
    for n in [0u32, 7, 10, 39, 40, 100, 4294967295] {
        let mut s = String::new();
        append_decimal(&mut s, n as i64);
        assert_eq!(parse_u32(&s), Some(n));
    }
}

#[test]
fn decimals_are_written_as_usual() {
    for n in [0i64, 1, 9, 10, 42, 1234567890, -1, -10, i64::MAX, i64::MIN] {
        let mut s = "n=".to_string();
        append_decimal(&mut s, n);
        assert_eq!(s, format!("n={}", n));
    }
}

#[test]
fn joining_puts_the_separator_between() {
    let v = |parts: &[&str]| parts.iter().map(|p| p.to_string()).collect::<Vec<String>>();
    assert_eq!(join(&v(&[]), "; "), "");
    assert_eq!(join(&v(&["a"]), "; "), "a");
    assert_eq!(join(&v(&["a", "", "c"]), "; "), "a; ; c");
}

#[test]
fn parts_are_found_anywhere() {
    assert!(contains("git@github.com:a/b", "github.com"));
    assert!(contains("abc", ""));
    assert!(contains("abc", "c"));
    assert!(!contains("abc", "ca"));
    assert!(!contains("ab", "abc"));
}

#[test]
fn bytes_that_are_no_text_are_replaced() {
    assert_eq!(decode("grün".as_bytes()), "grün");
    assert_eq!(decode(&[0x61, 0xff, 0x62]), "a\u{fffd}b");
    assert_eq!(decode(&[]), "");
}
