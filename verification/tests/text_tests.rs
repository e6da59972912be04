use chronicle::text::{
    char_is_whitespace, contains, decimal_string, distinct_strings, ends_with, first_line_of,
    is_listed, is_text_before, push_decimal, same_text, split_lines, starts_with, strip_prefix,
    to_chars, truncated, trimmed, trimmed_end,
};

fn strings(items: &[&str]) -> Vec<String> {
    items.iter().map(|s| s.to_string()).collect()
}

#[test]
fn whitespace_is_what_the_standard_library_calls_whitespace() {
    let mut code: u32 = 0;
    while code <= 0x10FFFF {
        if let Some(c) = char::from_u32(code) {
            assert_eq!(char_is_whitespace(c), c.is_whitespace(), "U+{:04X}", code);
        }
        code += 1;
    }
}

#[test]
fn lines_are_split_as_the_standard_library_splits_them() {
    let samples = [
        "",
        "\n",
        "\r\n",
        "\r",
        "a",
        "a\n",
        "a\r\n",
        "a\r",
        "a\n\nb",
        "a\r\r\nb\n",
        "\n\na",
        "a\nb\r\nc\rd\n\r\n",
        "- [ ] Buy milk\n- [x] Done\n",
        "é\n€\r\n",
        "\r\n\r\n",
        "x\n\r",
    ];
    for sample in samples {
        let expected: Vec<String> = sample.lines().map(|l| l.to_string()).collect();
        assert_eq!(split_lines(sample), expected, "{:?}", sample);
        assert_eq!(first_line_of(sample), sample.lines().next().unwrap_or(""), "{:?}", sample);
    }
}

#[test]
fn trimming_agrees_with_the_standard_library() {
    let samples = [
        "",
        " ",
        "\t\r\n",
        "a",
        "  a  ",
        "\u{A0}a b\u{3000}",
        "\u{2003}\u{85}x\u{1680}",
        " \u{200B} ",
        "a\n",
        "\n a \n b \n",
    ];
    for sample in samples {
        assert_eq!(trimmed(sample), sample.trim(), "{:?}", sample);
        assert_eq!(trimmed_end(sample), sample.trim_end(), "{:?}", sample);
    }
}

#[test]
fn decimal_numerals() {
    assert_eq!(decimal_string(0), "0");
    assert_eq!(decimal_string(7), "7");
    assert_eq!(decimal_string(10), "10");
    assert_eq!(decimal_string(109), "109");
    assert_eq!(decimal_string(1234567890), "1234567890");
    assert_eq!(decimal_string(usize::MAX), usize::MAX.to_string());
    let mut text = String::from("n=");
    push_decimal(&mut text, 42);
    assert_eq!(text, "n=42");
}

#[test]
fn containment_agrees_with_the_standard_library() {
    let cases = [
        ("", ""),
        ("abc", ""),
        ("", "a"),
        ("abc", "abc"),
        ("abc", "abcd"),
        ("aab", "ab"),
        ("Pending:todo.md:1:ab", "todo.md:1:a"),
        ("Pending:todo.md:1:ab", "todo.md:1:b"),
        ("git,todos", "todos"),
        ("abab", "bab"),
        ("ééa", "éa"),
        ("xyz", "y"),
        ("xyz", "zx"),
    ];
    for (hay, needle) in cases {
        assert_eq!(contains(hay, needle), hay.contains(needle), "{:?} in {:?}", needle, hay);
        assert_eq!(starts_with(hay, needle), hay.starts_with(needle));
        assert_eq!(ends_with(hay, needle), hay.ends_with(needle));
        assert_eq!(
            strip_prefix(hay, needle),
            hay.strip_prefix(needle).map(|rest| rest.to_string())
        );
        assert_eq!(same_text(hay, needle), hay == needle);
    }
}

#[test]
fn dictionary_order_agrees_with_the_standard_library() {
    let samples = ["", "a", "ab", "b", "B", "chronicle-2024-01-15.md", "chronicle-2024-01-2.md", "é", "z"];
    for a in samples {
        for b in samples {
            assert_eq!(is_text_before(a, b), a < b, "{:?} before {:?}", a, b);
        }
    }
}

#[test]
fn truncation_counts_characters() {
    assert_eq!(truncated("abcdef", 3), "abc");
    assert_eq!(truncated("abc", 3), "abc");
    assert_eq!(truncated("ab", 3), "ab");
    assert_eq!(truncated("ééé", 2), "éé");
    assert_eq!(truncated("abc", 0), "");
    assert_eq!(to_chars("a€"), vec!['a', '€']);
}

#[test]
fn distinct_keeps_first_mentions_in_order() {
    assert_eq!(distinct_strings(&strings(&["b", "a", "b", "c", "a"])), strings(&["b", "a", "c"]));
    assert!(distinct_strings(&Vec::new()).is_empty());
    assert!(is_listed(&strings(&["x", "y"]), "y"));
    assert!(!is_listed(&strings(&["x", "y"]), "Y"));
}

#[test]
fn path_parts_agree_with_the_standard_library() {
    let samples = [
        "",
        ".",
        "..",
        "...",
        "/",
        "//",
        "a",
        "a/",
        "a//",
        "a/.",
        "a/./",
        "a/..",
        "a/../",
        "a/b",
        "/a/b/",
        "./a",
        "./",
        "/.",
        "/..",
        "a/./b",
        "a//b",
        "test.md",
        "test.markdown",
        "test.MD",
        "test.txt",
        "test",
        ".md",
        "..md",
        "a.",
        "a..",
        "a.b.c",
        "dir.d/file",
        "dir.d/.hidden",
        "dir.d/.hidden.md",
        "notes/idea.md",
        "/test/repo",
        "/test/repo/",
        "/test/repo/.",
        "/tmp/work/.git",
        "é/ü.ö",
        "a/.../b.",
        ". ",
        " .",
        "a/ ",
    ];
    for sample in samples {
        let path = std::path::Path::new(sample);
        assert_eq!(
            chronicle::paths::file_name(sample),
            path.file_name().map(|n| n.to_string_lossy().to_string()),
            "file name of {:?}",
            sample
        );
        assert_eq!(
            chronicle::paths::extension(sample),
            path.extension().map(|e| e.to_string_lossy().to_string()),
            "extension of {:?}",
            sample
        );
    }
}
