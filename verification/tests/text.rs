use arb::text::{
    before, chars, contains, contains_char, decimal_text, first_line, join, lower, remove_char, replace, same,
    starts_with, trim_end,
};

const WORDS: [&str; 12] = [
    "", "a", "b", "ab", "aba", "abab", "TAOUSDT", "TAO_USDT", "USDTUSDT", "\u{e9}", "\u{1f600}", "A\nB",
];

#[test]
fn characters_of_a_text() {
    assert_eq!(chars("a\u{1f600}b"), vec!['a', '\u{1f600}', 'b']);
}

#[test]
fn comparison_of_texts() {
    for a in WORDS {
        for b in WORDS {
            assert_eq!(same(a, b), a == b);
            assert_eq!(before(a, b), a < b);
        }
    }
}

#[test]
fn search_in_texts() {
    for a in WORDS {
        for b in WORDS {
            assert_eq!(contains(a, b), a.contains(b), "{} in {}", b, a);
            assert_eq!(starts_with(a, b), a.starts_with(b));
        }
        assert_eq!(contains_char(a, 'b'), a.contains('b'));
        assert_eq!(remove_char(a, 'b'), a.replace('b', ""));
    }
}

#[test]
fn replacement_in_texts() {
    for a in WORDS {
        for b in ["a", "ab", "USDT", "aba"] {
            for c in ["", "x", "_USDT", "abab"] {
                assert_eq!(replace(a, b, c), a.replace(b, c));
            }
        }
    }
}

#[test]
fn suffixes_are_dropped_as_often_as_they_stand_there() {
    for a in WORDS {
        for b in ["a", "b", "USDT", "_USDT", "ab"] {
            assert_eq!(trim_end(a, b), a.trim_end_matches(b));
        }
    }
    assert_eq!(trim_end("XUSDTUSDT", "USDT"), "X");
}

#[test]
fn numbers_in_decimal() {
    for n in [0, 7, 9, 10, 443, 1080, 65535, 1_000_000_007, u64::MAX] {
        assert_eq!(decimal_text(n), format!("{}", n));
    }
}

#[test]
fn joined_texts() {
    let none: Vec<String> = Vec::new();
    assert_eq!(join(&none, "/"), "");
    assert_eq!(join(&vec!["a".to_string()], "/"), "a");
    assert_eq!(join(&vec!["a".to_string(), "".to_string(), "c".to_string()], "/"), "a//c");
}

#[test]
fn first_lines() {
    for t in ["", "a", "a\nb", "a\r\nb", "\nb", "\r\nb", "a\r", "a\rb\nc", "a\r\r\nb"] {
        assert_eq!(first_line(t), t.lines().next().unwrap_or(""), "{:?}", t);
    }
}

#[test]
fn texts_in_lower_case() {
    for t in ["TAOUSDT", "abcXYZ019_[]@`{", "\u{c9}A", "\u{130}", "A\u{3a3}", ""] {
        assert_eq!(lower(t), t.to_lowercase());
    }
    assert_eq!(lower("TAOUSDT"), "taousdt");
}
