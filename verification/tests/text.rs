use cargo_commitlint::text::{
    blank, contains, decimal_string, ends_with, find, join_range, join_strings, same, slice, split_lines,
    starts_with, to_chars, trimmed,
};

#[test]
fn lines_are_those_of_std() {
    for s in [
        "",
        "\n",
        "\n\n",
        "a",
        "a\n",
        "a\nb",
        "a\r\nb\r\n",
        "a\rb\n",
        "a\r",
        "\r\n",
        "\r",
        "a\r\r\nb",
        "a\n\nb\n\n",
        "ünï\ncödé\r\n",
    ] {
        let expected: Vec<String> = s.lines().map(|l| l.to_string()).collect();
        assert_eq!(split_lines(s), expected, "{:?}", s);
    }
}

#[test]
fn trimmed_is_that_of_std() {
    for s in [
        "",
        " ",
        "a",
        "  a b \t\n",
        "\u{a0}x\u{2003}",
        "\u{3000}",
        "x\u{200b}",
        " \r\n a \r\n",
    ] {
        assert_eq!(trimmed(s), s.trim(), "{:?}", s);
        assert_eq!(blank(s), s.trim().is_empty(), "{:?}", s);
    }
}

#[test]
fn decimal_numbers() {
    assert_eq!(decimal_string(0), "0");
    assert_eq!(decimal_string(7), "7");
    assert_eq!(decimal_string(10), "10");
    assert_eq!(decimal_string(72), "72");
    assert_eq!(decimal_string(100), "100");
    assert_eq!(decimal_string(1234567890), "1234567890");
    assert_eq!(decimal_string(usize::MAX), usize::MAX.to_string());
}

#[test]
fn joining() {
    let parts = vec!["a".to_string(), "".to_string(), "bc".to_string()];
    assert_eq!(join_strings(&parts, ", "), "a, , bc");
    assert_eq!(join_strings(&Vec::new(), ", "), "");
    assert_eq!(join_strings(&vec!["x".to_string()], ", "), "x");
    assert_eq!(join_range(&parts, 1, 3, "-"), "-bc");
    assert_eq!(join_range(&parts, 2, 2, "-"), "");
}

#[test]
fn prefixes_and_suffixes() {
    assert!(starts_with("BREAKING CHANGE: x", "BREAKING CHANGE:"));
    assert!(!starts_with("BREAKING CHANGE", "BREAKING CHANGE:"));
    assert!(starts_with("abc", ""));
    assert!(starts_with("", ""));
    assert!(!starts_with("", "a"));
    assert!(ends_with("abc.", "."));
    assert!(ends_with("abc", "abc"));
    assert!(ends_with("abc", ""));
    assert!(!ends_with("abc", "ab"));
    assert!(!ends_with("c", "bc"));
    assert!(ends_with("grüße", "üße"));
}

#[test]
fn finding_and_slicing_count_characters() {
    assert_eq!(find("a:b:c", ':'), Some(1));
    assert_eq!(find("äö:ü", ':'), Some(2));
    assert_eq!(find("abc", ':'), None);
    assert_eq!(find("", ':'), None);
    assert_eq!(slice("äö:ü", 0, 2), "äö");
    assert_eq!(slice("äö:ü", 3, 4), "ü");
    assert_eq!(slice("äö:ü", 2, 2), "");
    assert_eq!(to_chars("äö:ü"), vec!['ä', 'ö', ':', 'ü']);
    assert!(same("äö", "äö"));
    assert!(!same("äö", "äo"));
    assert!(!same("a", "ab"));
    assert!(same("", ""));
}

#[test]
fn containing() {
    for (s, needle) in [
        ("", ""),
        ("abc", ""),
        ("", "a"),
        ("abc", "abc"),
        ("abc", "bc"),
        ("abc", "abcd"),
        ("aab", "ab"),
        ("ababac", "abac"),
        ("grüße", "üß"),
        ("grüße", "us"),
    ] {
        assert_eq!(contains(s, needle), s.contains(needle), "{:?} in {:?}", needle, s);
    }
}
