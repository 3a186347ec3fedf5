use anime_search::text::{
    chars_of, clone_strings, concat2, concat3, contains_char, ends_with, is_whitespace_char,
    replace_all, same_text, split, starts_with, text_le_exec, to_decimal, trim, trim_end_matches,
};

#[test]
fn whitespace_is_what_std_calls_whitespace() {
    let mut n = 0;
    for code in 0..=0x10FFFFu32 {
        if let Some(c) = char::from_u32(code) {
            assert_eq!(is_whitespace_char(c), c.is_whitespace(), "U+{:04X}", code);
            if c.is_whitespace() {
                n += 1;
            }
        }
    }
    assert_eq!(n, 25);
}

#[test]
fn trim_agrees_with_std() {
    let samples = [
        "",
        " ",
        "a",
        "  a  ",
        "\t\n a b \r\n",
        "\u{3000}全角\u{3000}",
        "\u{a0}x\u{2003}y\u{2028}",
        "x\u{200b}",
        " \u{85} ",
        "no-space",
    ];
    for s in samples {
        assert_eq!(trim(s), s.trim(), "for {:?}", s);
    }
    assert_eq!(trim("  div/a \n"), "div/a");
    assert_eq!(trim("x\u{200b}"), "x\u{200b}");
}

#[test]
fn trim_end_matches_strips_every_trailing_occurrence() {
    assert_eq!(trim_end_matches("https://x.test///", '/'), "https://x.test");
    assert_eq!(trim_end_matches("///", '/'), "");
    assert_eq!(trim_end_matches("/a/b", '/'), "/a/b");
    assert_eq!(trim_end_matches("", '/'), "");
    for s in ["a//", "/", "a/b/", "é/"] {
        assert_eq!(trim_end_matches(s, '/'), s.trim_end_matches('/'));
    }
}

#[test]
fn prefix_and_suffix_tests() {
    assert!(starts_with("https://x", "https://"));
    assert!(!starts_with("http://x", "https://"));
    assert!(starts_with("abc", ""));
    assert!(!starts_with("ab", "abc"));
    assert!(ends_with("a.json", ".json"));
    assert!(!ends_with("json", ".json"));
    assert!(ends_with("x", ""));
    assert!(starts_with("线路1", "线路"));
}

#[test]
fn same_text_compares_characters() {
    assert!(same_text("", ""));
    assert!(same_text("动漫", "动漫"));
    assert!(!same_text("a", "b"));
    assert!(!same_text("a", "ab"));
    assert!(!same_text("ab", "a"));
}

#[test]
fn contains_char_finds_a_nul() {
    assert!(contains_char("a\0b", '\0'));
    assert!(!contains_char("ab", '\0'));
    assert!(!contains_char("", 'a'));
    assert!(contains_char("线路", '路'));
}

#[test]
fn concatenation() {
    assert_eq!(concat2("ab", "cd"), "abcd");
    assert_eq!(concat2("", ""), "");
    assert_eq!(concat3("a", "/", "b"), "a/b");
}

#[test]
fn chars_of_gives_the_characters() {
    assert_eq!(chars_of("a路b"), vec!['a', '路', 'b']);
    assert!(chars_of("").is_empty());
}

#[test]
fn replace_all_agrees_with_std() {
    let cases = [
        ("https://x/s?q=@keyword", "@keyword", "abc"),
        ("@keyword@keyword", "@keyword", "x"),
        ("@keywor", "@keyword", "x"),
        ("aaaa", "aa", "b"),
        ("aaa", "aa", "b"),
        ("abc", "x", "y"),
        ("", "x", "y"),
        ("a@keyword/b/@keyword", "@keyword", "%E8%BF%9B"),
        ("ababab", "ab", ""),
        ("xx@@keyword", "@keyword", "@keyword"),
    ];
    for (text, pattern, with) in cases {
        assert_eq!(replace_all(text, pattern, with), text.replace(pattern, with));
    }
    assert_eq!(replace_all("q=@keyword&p=@keyword", "@keyword", "k"), "q=k&p=k");
}

#[test]
fn replace_all_leaves_the_text_for_an_empty_pattern() {
    assert_eq!(replace_all("abc", "", "x"), "abc");
}

#[test]
fn split_agrees_with_std() {
    for s in ["a,b,c", "", ",", "a,,b", ",a", "a,", "one", " a , b "] {
        let expected: Vec<String> = s.split(',').map(|p| p.to_string()).collect();
        assert_eq!(split(s, ','), expected, "for {:?}", s);
    }
    assert_eq!(split("a,b", ','), vec!["a".to_string(), "b".to_string()]);
    assert_eq!(split("", ','), vec![String::new()]);
}

#[test]
fn decimal_notation() {
    assert_eq!(to_decimal(0), "0");
    assert_eq!(to_decimal(7), "7");
    assert_eq!(to_decimal(10), "10");
    assert_eq!(to_decimal(404), "404");
    assert_eq!(to_decimal(65535), "65535");
    assert_eq!(to_decimal(usize::MAX), usize::MAX.to_string());
    for n in [1usize, 9, 11, 99, 100, 101, 1234567890] {
        assert_eq!(to_decimal(n), n.to_string());
    }
}

#[test]
fn text_order_agrees_with_std() {
    let samples = ["", "a", "b", "ab", "B", "aa", "动漫", "动", "z", "é", "~"];
    for a in samples {
        for b in samples {
            assert_eq!(text_le_exec(a, b), a <= b, "for {:?} and {:?}", a, b);
        }
    }
}

#[test]
fn clone_strings_copies() {
    let v = vec!["a".to_string(), "".to_string(), "路".to_string()];
    assert_eq!(clone_strings(&v), v);
    assert!(clone_strings(&Vec::new()).is_empty());
}
