use resilient::decimal::{format_i64, parse_i64};
use resilient::paths::join;
use resilient::text::{
    char_is_whitespace, find_in, line_bounds, occurs, piece_at, same_chars, same_text, skip_run,
    starts_with, to_chars, trim, word_at,
};

fn chars(s: &str) -> Vec<char> {
    s.chars().collect()
}

fn piece(s: &str, pat: &str, n: usize) -> Option<String> {
    let c = chars(s);
    piece_at(&c, &chars(pat), n).map(|(a, b)| c[a..b].iter().collect())
}

fn word(s: &str, n: usize) -> Option<String> {
    let c = chars(s);
    word_at(&c, n).map(|(a, b)| c[a..b].iter().collect())
}

fn lines_of(s: &str) -> Vec<String> {
    let c = chars(s);
    line_bounds(&c).into_iter().map(|(a, b)| c[a..b].iter().collect()).collect()
}

const SAMPLES: [&str; 12] = [
    "",
    " ",
    "a",
    "  a b  ",
    "\t\r\n x \u{a0}y\u{2003}z \u{3000}",
    "one  two\tthree\nfour",
    "\u{85}lead",
    "trail\u{1680}",
    "a\u{200b}b",
    "x\u{2028}y\u{2029}z\u{202f}w\u{205f}v",
    "\u{b}\u{c}mid\u{1c}dle",
    "*deleting   old/file.txt",
];

#[test]
fn whitespace_is_what_the_standard_library_calls_whitespace() {
    for code in 0u32..0x3100 {
        if let Some(c) = char::from_u32(code) {
            assert_eq!(char_is_whitespace(c), c.is_whitespace(), "{:x}", code);
        }
    }
    assert!(!char_is_whitespace('\u{feff}'));
    assert!(!char_is_whitespace('\u{10ffff}'));
}

#[test]
fn trim_agrees_with_the_standard_library() {
    for s in SAMPLES {
        assert_eq!(trim(s), s.trim(), "{:?}", s);
    }
    assert_eq!(trim("  a b  "), "a b");
}

#[test]
fn words_agree_with_the_standard_library() {
    for s in SAMPLES {
        let expected: Vec<&str> = s.split_whitespace().collect();
        for n in 0..expected.len() + 2 {
            assert_eq!(word(s, n).as_deref(), expected.get(n).copied(), "{:?} {}", s, n);
        }
    }
    assert_eq!(word("  a  bc d", 1), Some("bc".to_string()));
}

#[test]
fn pieces_agree_with_the_standard_library() {
    let cases = [
        ("", "->"),
        ("a -> b", "->"),
        ("a->b->c", "->"),
        ("->", "->"),
        ("-->>", "->"),
        ("a:b:c", ":"),
        (":", ":"),
        ("::", ":"),
        ("abc", ":"),
        ("aaa", "aa"),
    ];
    for (s, pat) in cases {
        let expected: Vec<&str> = s.split(pat).collect();
        for n in 0..expected.len() + 2 {
            assert_eq!(piece(s, pat, n).as_deref(), expected.get(n).copied(), "{:?} {}", s, n);
        }
    }
    assert_eq!(piece("a->b->c", "->", 1), Some("b".to_string()));
}

#[test]
fn lines_agree_with_the_standard_library() {
    for s in [
        "",
        "\n",
        "a",
        "a\n",
        "a\nb",
        "a\n\nb\n",
        "a\r\nb\r\n",
        "a\rb\n",
        "a\r",
        "\r\n",
        "\r\r\n",
        "5\nfirst\nsecond",
        "foo\nbar\n\r\nbaz\r",
    ] {
        let expected: Vec<String> = s.lines().map(|l| l.to_string()).collect();
        assert_eq!(lines_of(s), expected, "{:?}", s);
    }
    assert_eq!(lines_of("a\r\n\nb"), vec!["a".to_string(), "".to_string(), "b".to_string()]);
}

#[test]
fn searching_finds_the_first_occurrence() {
    let text = chars("abcabc");
    assert_eq!(find_in(&text, &chars("bc"), 0), Some(1));
    assert_eq!(find_in(&text, &chars("bc"), 2), Some(4));
    assert_eq!(find_in(&text, &chars("bc"), 5), None);
    assert_eq!(find_in(&text, &chars("x"), 0), None);
    assert_eq!(find_in(&text, &chars("abcabcd"), 0), None);
    assert!(occurs(&text, &chars("cab"), 2));
    assert!(!occurs(&text, &chars("cab"), 3));
    assert!(!occurs(&text, &chars("bc"), 5));
    assert!(starts_with(&text, &chars("abc")));
    assert!(starts_with(&text, &chars("")));
    assert!(!starts_with(&text, &chars("bc")));
    assert!(!starts_with(&chars("ab"), &chars("abc")));
}

#[test]
fn runs_and_comparisons() {
    let text = chars("  ab  ");
    assert_eq!(skip_run(&text, 0, true), 2);
    assert_eq!(skip_run(&text, 2, false), 4);
    assert_eq!(skip_run(&text, 4, true), 6);
    assert_eq!(skip_run(&text, 2, true), 2);
    assert_eq!(skip_run(&text, 6, false), 6);
    assert_eq!(to_chars("héllo"), chars("héllo"));
    assert!(same_chars(&chars("ab"), &chars("ab")));
    assert!(!same_chars(&chars("ab"), &chars("ac")));
    assert!(!same_chars(&chars("ab"), &chars("abc")));
    assert!(same_text("latest", "latest"));
    assert!(!same_text("latest", "Latest"));
    assert!(same_text("", ""));
}

#[test]
fn numbers_are_written_in_decimal() {
    for n in [0i64, 1, 9, 10, 42, -1, -10, 1431648000, i64::MAX, i64::MIN, i64::MIN + 1] {
        assert_eq!(format_i64(n), n.to_string());
    }
    assert_eq!(format_i64(-9223372036854775808), "-9223372036854775808");
    assert_eq!(format_i64(1005), "1005");
}

#[test]
fn numbers_are_read_as_the_standard_library_reads_them() {
    for s in [
        "0",
        "5",
        "-5",
        "+5",
        "007",
        "-0",
        "+0",
        "",
        "-",
        "+",
        "--5",
        "+-5",
        " 5",
        "5 ",
        "5a",
        "a",
        "1_000",
        "٣",
        "9223372036854775807",
        "9223372036854775808",
        "-9223372036854775808",
        "-9223372036854775809",
        "00000000000000000000009223372036854775807",
        "99999999999999999999999999",
        "-99999999999999999999999999",
        "18446744073709551616",
    ] {
        assert_eq!(parse_i64(s), s.parse::<i64>().ok(), "{:?}", s);
    }
    assert_eq!(parse_i64("1431648000"), Some(1431648000));
    assert_eq!(parse_i64("-9223372036854775808"), Some(i64::MIN));
    assert_eq!(parse_i64("9223372036854775808"), None);
}

#[test]
fn reading_what_was_written_gives_the_number_back() {
    for n in [0i64, 7, -7, 123456789, i64::MAX, i64::MIN] {
        assert_eq!(parse_i64(&format_i64(n)), Some(n));
    }
}

#[test]
fn joining_paths() {
    assert_eq!(join("/repo", "backups"), "/repo/backups");
    assert_eq!(join("/repo/", "backups"), "/repo/backups");
    assert_eq!(join("", "backups"), "backups");
    assert_eq!(join("/repo", "/abs"), "/abs");
    assert_eq!(join("/repo", ""), "/repo/");
    assert_eq!(join("/", "x"), "/x");
    assert_eq!(join("rel", "a/b"), "rel/a/b");
}

#[test]
fn joining_agrees_with_the_standard_library() {
    for base in ["", "/", "/repo", "/repo/", "rel", "rel/dir/", "a//"] {
        for path in ["", "x", "x/y", "/abs", "/", "./x", "../x", "x/"] {
            let expected = std::path::Path::new(base).join(path);
            assert_eq!(join(base, path), expected.to_str().unwrap(), "{:?} {:?}", base, path);
        }
    }
}
