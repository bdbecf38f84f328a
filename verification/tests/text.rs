//! Text helpers, patterns and the token source.

use yafsh::glob::{expand_names, glob_match_helper, glob_matches, has_glob_chars, split_pattern};
use yafsh::multiline::{extract_words, is_incomplete};
use yafsh::text::{
    chars_of, copy_strings, find_from, format_count, format_int, format_u64, has_char, is_space,
    join2, join3, lines_of, sort_strings, split_at_char, starts_with_char, str_le, string_of,
    to_int, trimmed, trimmed_at_end, width_of,
};
use yafsh::tokenizer::{is_int, spans_of, tokenize, tokenize_with_positions};

fn strings(words: &[&str]) -> Vec<String> {
    words.iter().map(|w| w.to_string()).collect()
}

#[test]
fn integers_are_read_exactly() {
    assert_eq!(to_int("0"), Some(0));
    assert_eq!(to_int("-0"), Some(0));
    assert_eq!(to_int("+17"), Some(17));
    assert_eq!(to_int("000123"), Some(123));
    assert_eq!(to_int("9223372036854775807"), Some(i64::MAX));
    assert_eq!(to_int("-9223372036854775808"), Some(i64::MIN));
    assert_eq!(to_int("9223372036854775808"), None);
    assert_eq!(to_int("-9223372036854775809"), None);
    assert_eq!(to_int("99999999999999999999999999999999999999999999"), None);
    for no_number in ["", "+", "-", "--1", "1-", "1 ", " 1", "1.0", "0x10", "1e3", "１２", "99999999999999999999x"] {
        assert_eq!(to_int(no_number), None, "{:?}", no_number);
        assert!(!is_int(no_number));
    }
}

#[test]
fn integers_are_written_exactly() {
    assert_eq!(format_int(0), "0");
    assert_eq!(format_int(-10), "-10");
    assert_eq!(format_int(i64::MIN), "-9223372036854775808");
    assert_eq!(format_u64(u64::MAX), "18446744073709551615");
    assert_eq!(format_u64(9), "9");
    assert_eq!(format_u64(10), "10");
    assert_eq!(format_count(305), "305");
    for n in [0i64, 1, -1, 9, 10, 99, 100, -101, 1234567890, i64::MAX, i64::MIN] {
        assert_eq!(format_int(n), n.to_string());
        assert_eq!(to_int(&format_int(n)), Some(n));
    }
}

#[test]
fn characters_and_strings_convert_both_ways() {
    let v = chars_of("añ€😀");
    assert_eq!(v, vec!['a', 'ñ', '€', '😀']);
    assert_eq!(string_of(&v, 1, 3), "ñ€");
    assert_eq!(string_of(&v, 2, 2), "");
    assert_eq!(string_of(&v, 0, 4), "añ€😀");
    assert_eq!(v.iter().map(|c| width_of(*c)).collect::<Vec<_>>(), vec![1, 2, 3, 4]);
    assert_eq!(join2("ab", "cd"), "abcd");
    assert_eq!(join3("a", "", "c"), "ac");
    assert_eq!(copy_strings(&strings(&["x", "", "y"])), strings(&["x", "", "y"]));
}

#[test]
fn searching_finds_the_first_place() {
    let v = chars_of("a:b:c");
    assert_eq!(find_from(&v, 0, ':'), 1);
    assert_eq!(find_from(&v, 1, ':'), 1);
    assert_eq!(find_from(&v, 2, ':'), 3);
    assert_eq!(find_from(&v, 4, ':'), 5);
    assert_eq!(find_from(&v, 5, ':'), 5);
    assert!(has_char("a/b", '/'));
    assert!(!has_char("", '/'));
    assert!(starts_with_char("/a", '/'));
    assert!(!starts_with_char("a/", '/'));
    assert!(!starts_with_char("", '/'));
}

#[test]
fn splitting_keeps_empty_pieces() {
    assert_eq!(split_at_char("/usr/bin:/bin", ':'), strings(&["/usr/bin", "/bin"]));
    assert_eq!(split_at_char("a::b:", ':'), strings(&["a", "", "b", ""]));
    assert_eq!(split_at_char(":", ':'), strings(&["", ""]));
    assert_eq!(split_at_char("", ':'), strings(&[""]));
    assert_eq!(split_at_char("abc", ':'), strings(&["abc"]));
}

#[test]
fn lines_end_at_line_feeds() {
    assert_eq!(lines_of("one\ntwo\nthree"), strings(&["one", "two", "three"]));
    assert_eq!(lines_of("one\ntwo\n"), strings(&["one", "two"]));
    assert_eq!(lines_of("one\r\ntwo\r\n"), strings(&["one", "two"]));
    assert_eq!(lines_of("a\n\n\nb"), strings(&["a", "", "", "b"]));
    assert_eq!(lines_of("\n"), strings(&[""]));
    assert_eq!(lines_of("\n\n"), strings(&["", ""]));
    assert_eq!(lines_of(""), Vec::<String>::new());
    // A carriage return belongs to the line unless a line feed follows it.
    assert_eq!(lines_of("a\rb\n"), strings(&["a\rb"]));
    assert_eq!(lines_of("a\r"), strings(&["a\r"]));
    assert_eq!(lines_of("a\r\r\n"), strings(&["a\r"]));
    for sample in ["", "x", "x\n", "\r\n", "a\nb\r\nc\r", "\n\r\n\n", "ä\n€"] {
        let expected: Vec<String> = sample.lines().map(|l| l.to_string()).collect();
        assert_eq!(lines_of(sample), expected, "{:?}", sample);
    }
}

#[test]
fn trimming_removes_whitespace_at_the_ends() {
    assert_eq!(trimmed("  a b \t\n"), "a b");
    assert_eq!(trimmed("\u{a0}x\u{3000}"), "x");
    assert_eq!(trimmed(" \n "), "");
    assert_eq!(trimmed(""), "");
    assert_eq!(trimmed_at_end("  a \n"), "  a");
    assert_eq!(trimmed_at_end("\n"), "");
    for c in ['\u{0}', ' ', '\t', '\n', '\u{b}', '\u{c}', '\r', '\u{85}', '\u{a0}', '\u{1680}', '\u{2000}', '\u{200a}', '\u{200b}', '\u{2028}', '\u{2029}', '\u{202f}', '\u{205f}', '\u{3000}', 'a', '\u{feff}'] {
        assert_eq!(is_space(c), c.is_whitespace(), "{:?}", c);
    }
    for sample in ["", " a ", "\u{2003}b\u{85}", "c\u{200b}", "\t\r\n"] {
        assert_eq!(trimmed(sample), sample.trim());
        assert_eq!(trimmed_at_end(sample), sample.trim_end());
    }
}

#[test]
fn strings_are_ordered_by_code_point() {
    assert!(str_le("", ""));
    assert!(str_le("", "a"));
    assert!(!str_le("a", ""));
    assert!(str_le("a", "a"));
    assert!(str_le("a", "ab"));
    assert!(!str_le("ab", "a"));
    assert!(str_le("B", "a"));
    assert!(!str_le("a", "B"));
    assert!(str_le("z", "é"));
    let samples = ["", "a", "B", "ab", "a b", "é", "z", "€", "😀", "10", "9"];
    for a in samples {
        for b in samples {
            assert_eq!(str_le(a, b), a <= b, "{:?} {:?}", a, b);
        }
    }
}

#[test]
fn sorting_puts_strings_in_order() {
    assert_eq!(sort_strings(strings(&["b", "a", "c"])), strings(&["a", "b", "c"]));
    assert_eq!(sort_strings(strings(&["b", "a", "b", "", "B"])), strings(&["", "B", "a", "b", "b"]));
    assert_eq!(sort_strings(Vec::new()), Vec::<String>::new());
    let mut expected = strings(&["10", "9", "é", "z", "ab", "a", "€", ""]);
    let sorted = sort_strings(expected.clone());
    expected.sort();
    assert_eq!(sorted, expected);
}

#[test]
fn patterns_match_whole_names() {
    for (pattern, name, matches) in [
        ("", "", true),
        ("", "a", false),
        ("*", "", true),
        ("*", "anything", true),
        ("?", "", false),
        ("?", "a", true),
        ("?", "ab", false),
        ("*.rs", "main.rs", true),
        ("*.rs", ".rs", true),
        ("*.rs", "main.rs.bak", false),
        ("a*b*c", "abc", true),
        ("a*b*c", "aXbYc", true),
        ("a*b*c", "aXbY", false),
        ("a**", "a", true),
        ("??", "é€", true),
        ("[ab]", "[ab]", true),
        ("[ab]", "a", false),
        ("x", "X", false),
    ] {
        assert_eq!(glob_matches(pattern, name), matches, "{:?} {:?}", pattern, name);
    }
    let pat = chars_of("a*c");
    let txt = chars_of("xxabc");
    assert!(glob_match_helper(&pat, &txt, 0, 2));
    assert!(!glob_match_helper(&pat, &txt, 0, 0));
    assert!(glob_match_helper(&pat, &txt, 2, 4));
    assert!(glob_match_helper(&pat, &txt, 3, 5));
}

#[test]
fn patterns_are_known_by_their_characters() {
    assert!(has_glob_chars("*.rs"));
    assert!(has_glob_chars("a?"));
    assert!(has_glob_chars("[x"));
    assert!(!has_glob_chars("plain]"));
    assert!(!has_glob_chars(""));
}

#[test]
fn a_pattern_splits_at_its_last_slash() {
    assert_eq!(split_pattern("*.rs"), (".".to_string(), "*.rs".to_string()));
    assert_eq!(split_pattern("src/*.rs"), ("src".to_string(), "*.rs".to_string()));
    assert_eq!(split_pattern("a/b/c?"), ("a/b".to_string(), "c?".to_string()));
    assert_eq!(split_pattern("/*"), ("".to_string(), "*".to_string()));
    assert_eq!(split_pattern("dir/"), ("dir".to_string(), "".to_string()));
}

#[test]
fn a_pattern_expands_to_sorted_matches() {
    let names = strings(&["b.rs", "a.txt", "a.rs", "c.rs"]);
    assert_eq!(expand_names(&names, ".", "*.rs"), strings(&["a.rs", "b.rs", "c.rs"]));
    assert_eq!(expand_names(&names, "src", "?.rs"), strings(&["src/a.rs", "src/b.rs", "src/c.rs"]));
    assert_eq!(expand_names(&names, "", "a*"), strings(&["/a.rs", "/a.txt"]));
    assert_eq!(expand_names(&names, ".", "*.md"), Vec::<String>::new());
}

#[test]
fn tokens_are_separated_by_whitespace() {
    let shown = |line: &str| -> Vec<(String, bool)> {
        tokenize(line).into_iter().map(|t| (t.text, t.quoted)).collect()
    };
    let t = |text: &str, quoted: bool| (text.to_string(), quoted);
    assert_eq!(shown(""), vec![]);
    assert_eq!(shown("  \t "), vec![]);
    assert_eq!(shown("a  b\tc\u{a0}d"), vec![t("a", false), t("b", false), t("c", false), t("d", false)]);
    assert_eq!(shown("ab\"cd ef\"gh"), vec![t("ab", false), t("cd ef", true), t("gh", false)]);
    assert_eq!(shown("\"\""), vec![t("", true)]);
    assert_eq!(shown("\"open end"), vec![t("open end", true)]);
    assert_eq!(shown("x \""), vec![t("x", false)]);
    assert_eq!(shown("\"a\"\"b\""), vec![t("a", true), t("b", true)]);
}

#[test]
fn positions_are_byte_offsets() {
    let shown = |line: &str| -> Vec<(String, bool, usize)> {
        tokenize_with_positions(line).into_iter().map(|t| (t.text, t.quoted, t.position)).collect()
    };
    let t = |text: &str, quoted: bool, position: usize| (text.to_string(), quoted, position);
    assert_eq!(shown("é €€ \"ö\" x"), vec![t("é", false, 0), t("€€", false, 3), t("ö", true, 10), t("x", false, 15)]);
    assert_eq!(shown("ab\"c\"d"), vec![t("ab", false, 0), t("c", true, 2), t("d", false, 5)]);
    assert_eq!(shown("  \"open"), vec![t("open", true, 2)]);
    assert_eq!(shown(""), vec![]);
}

#[test]
fn spans_cover_the_quotes() {
    let v = chars_of("é \"a b\" \"c");
    let spans: Vec<(String, bool, usize, usize)> =
        spans_of(&v).into_iter().map(|s| (s.text, s.quoted, s.start, s.end)).collect();
    assert_eq!(
        spans,
        vec![
            ("é".to_string(), false, 0, 1),
            ("a b".to_string(), true, 2, 7),
            ("c".to_string(), true, 8, 10)
        ]
    );
}

#[test]
fn words_outside_quotes_are_extracted() {
    assert_eq!(extract_words("a \"b c\" d"), strings(&["a", "d"]));
    assert_eq!(extract_words("ab\"cd ef\"gh"), strings(&["abgh"]));
    assert_eq!(extract_words("\"open if"), Vec::<String>::new());
    assert_eq!(extract_words("  x\ny\t"), strings(&["x", "y"]));
}

#[test]
fn more_closers_than_openers_is_complete() {
    assert!(!is_incomplete("then then ; until loop"));
    assert!(!is_incomplete("; : x"));
    assert!(is_incomplete(": x ; :"));
    assert!(is_incomplete("begin do loop"));
    assert!(is_incomplete("do begin until"));
    assert!(!is_incomplete("begin while repeat"));
    assert!(is_incomplete("each"));
    assert!(is_incomplete("\"a\" \""));
    assert!(!is_incomplete("\"begin\" \"if\" \":\""));
    assert!(is_incomplete("if\"x\"y then"));
}
