use ply::text::{
    chars_before, chars_of, join, replace, same_text, split_once, string_of, trim,
    whitespace,
};

#[test]
fn chars_and_back() {
    let v = chars_of("héllo");
    assert_eq!(v, vec!['h', 'é', 'l', 'l', 'o']);
    assert_eq!(string_of(&v), "héllo");
    assert_eq!(string_of(&Vec::new()), "");
}

#[test]
fn same_text_compares_contents() {
    assert!(same_text("abc", "abc"));
    assert!(!same_text("abc", "abd"));
    assert!(!same_text("abc", "ab"));
    assert!(same_text("", ""));
}

#[test]
fn trim_removes_unicode_whitespace() {
    assert_eq!(trim("  a b \t\n"), "a b");
    assert_eq!(trim("\u{3000}x\u{a0}"), "x");
    assert_eq!(trim("   "), "");
    assert_eq!(trim(""), "");
    assert_eq!(trim("x"), "x");
    assert_eq!(trim(" \u{200b} "), "\u{200b}");
}

#[test]
fn whitespace_agrees_with_char() {
    let mut n: u32 = 0;
    while n < 0x3100 {
        if let Some(c) = char::from_u32(n) {
            assert_eq!(whitespace(c), c.is_whitespace());
        }
        n += 1;
    }
}

#[test]
fn trim_agrees_with_str() {
    for s in ["", " ", " a", "a ", "\r\n a \u{2028}", "a\u{85}", "\u{1680}b\u{205f}"] {
        assert_eq!(trim(s), s.trim());
    }
}

#[test]
fn replace_scans_from_the_left() {
    assert_eq!(replace("a - b", " - ", "_"), "a_b");
    assert_eq!(replace("aaa", "aa", "b"), "ba");
    assert_eq!(replace("abc", "", "x"), "abc");
    assert_eq!(replace("abc", "abcd", "x"), "abc");
    assert_eq!(replace("a.b.c", ".", ""), "abc");
    assert_eq!(replace("", "a", "b"), "");
    assert_eq!(replace("xx", "x", "xx"), "xxxx");
}

#[test]
fn replace_agrees_with_str() {
    for (s, from, to) in [("a b  c", " ", "_"), ("ababab", "aba", "X"), ("k10k", "k", "000")] {
        assert_eq!(replace(s, from, to), s.replace(from, to));
    }
}

#[test]
fn split_once_takes_the_first_separator() {
    assert_eq!(split_once("a, b, c", ", "), Some(("a".to_string(), "b, c".to_string())));
    assert_eq!(split_once("abc", ", "), None);
    assert_eq!(split_once("a, ", ", "), Some(("a".to_string(), "".to_string())));
    assert_eq!(split_once(", a", ", "), Some(("".to_string(), "a".to_string())));
    assert_eq!(split_once("", ", "), None);
}

#[test]
fn join_puts_the_separator_between() {
    assert_eq!(join(&vec!["a".to_string(), "b".to_string(), "c".to_string()], "."), "a.b.c");
    assert_eq!(join(&vec!["a".to_string()], "."), "a");
    assert_eq!(join(&Vec::new(), "."), "");
    assert_eq!(join(&vec!["".to_string(), "".to_string()], "-"), "-");
}

#[test]
fn chars_before_is_the_order_of_strings() {
    let words = ["", "a", "ab", "b", "B", "é", "abc", "abd"];
    for x in words {
        for y in words {
            assert_eq!(chars_before(&chars_of(x), &chars_of(y)), x < y);
        }
    }
}

