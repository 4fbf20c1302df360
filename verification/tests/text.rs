use mailsync::text::{
    clone_opt_text, clone_texts, contains_text, ends_with_text, eq_ignoring_case, find_char,
    join_chars, len_without_trailing, rfind_char, strip_closing, strip_leading, sub_chars,
    to_chars, trim_chars,
};

fn chars(s: &str) -> Vec<char> {
    s.chars().collect()
}

#[test]
fn characters_of_a_string() {
    assert_eq!(to_chars("añb"), vec!['a', 'ñ', 'b']);
    assert!(to_chars("").is_empty());
}

#[test]
fn case_is_ignored_as_unicode_says() {
    assert!(eq_ignoring_case("Ann@Example.COM", "ann@example.com"));
    assert!(eq_ignoring_case("STRASSE", "strasse"));
    assert!(eq_ignoring_case("ÄÖ", "äö"));
    assert!(!eq_ignoring_case("ann", "anne"));
}

#[test]
fn search_in_text() {
    assert!(contains_text("[Gmail]/all mail", "all mail"));
    assert!(contains_text("abc", ""));
    assert!(contains_text("", ""));
    assert!(contains_text("abc", "abc"));
    assert!(contains_text("abc", "c"));
    assert!(!contains_text("abc", "abcd"));
    assert!(!contains_text("abc", "ca"));
    assert!(ends_with_text("v1/models", "/models"));
    assert!(!ends_with_text("v1/models/", "/models"));
    assert!(ends_with_text("x", ""));
    assert!(!ends_with_text("els", "/models"));
}

#[test]
fn first_and_last_place() {
    assert_eq!(find_char(&chars("a{b{c"), '{'), 1);
    assert_eq!(find_char(&chars("abc"), '{'), 3);
    assert_eq!(rfind_char(&chars("a}b}c"), '}'), 4);
    assert_eq!(rfind_char(&chars("abc"), '}'), 0);
    assert_eq!(rfind_char(&chars("}"), '}'), 1);
}

#[test]
fn trimming() {
    assert_eq!(trim_chars(&chars(" \t\n a b \u{a0}\u{3000} ")), chars("a b"));
    assert_eq!(trim_chars(&chars(" \n ")), chars(""));
    assert_eq!(trim_chars(&chars("")), chars(""));
    assert_eq!(trim_chars(&chars("x")), chars("x"));
    assert_eq!(len_without_trailing(&chars("a//b///"), '/'), 4);
    assert_eq!(len_without_trailing(&chars("///"), '/'), 0);
    assert_eq!(len_without_trailing(&chars("ab"), '/'), 2);
}

#[test]
fn stripping_repeated_parts() {
    assert_eq!(strip_leading(&chars("ababxab"), &chars("ab")), chars("xab"));
    assert_eq!(strip_leading(&chars("abab"), &chars("ab")), chars(""));
    assert_eq!(strip_leading(&chars("xab"), &chars("ab")), chars("xab"));
    assert_eq!(strip_leading(&chars("xab"), &chars("")), chars("xab"));
    assert_eq!(strip_closing(&chars("abxabab"), &chars("ab")), chars("abx"));
    assert_eq!(strip_closing(&chars("aab"), &chars("ab")), chars("a"));
    assert_eq!(strip_closing(&chars("b"), &chars("ab")), chars("b"));
    assert_eq!(strip_closing(&chars("ab"), &chars("")), chars("ab"));
}

#[test]
fn parts_and_joins() {
    assert_eq!(sub_chars(&chars("hello"), 1, 3), chars("el"));
    assert_eq!(sub_chars(&chars("hello"), 5, 5), chars(""));
    assert_eq!(join_chars(&chars("ab"), &chars("cd")), chars("abcd"));
    assert_eq!(join_chars(&chars(""), &chars("")), chars(""));
}

#[test]
fn copies_keep_the_text() {
    assert_eq!(clone_opt_text(&Some("x".to_string())), Some("x".to_string()));
    assert_eq!(clone_opt_text(&None), None);
    let items = vec!["a".to_string(), "".to_string(), "c".to_string()];
    assert_eq!(clone_texts(&items), items);
}

#[test]
fn white_space_is_what_unicode_says() {
    let spaces = [
        '\u{0009}', '\u{000A}', '\u{000B}', '\u{000C}', '\u{000D}', '\u{0020}', '\u{0085}',
        '\u{00A0}', '\u{1680}', '\u{2000}', '\u{200A}', '\u{2028}', '\u{2029}', '\u{202F}',
        '\u{205F}', '\u{3000}',
    ];
    for c in spaces {
        assert_eq!(trim_chars(&vec![c, 'a', c]), vec!['a']);
    }
    for c in ['\u{0008}', '\u{000E}', '\u{001F}', '\u{200B}', '\u{180E}', '\u{FEFF}', '{', '}'] {
        assert_eq!(trim_chars(&vec![c, 'a', c]), vec![c, 'a', c]);
    }
}
