use getman::text::{chars_of, is_whitespace, same_text, split_lines, trimmed};

fn std_lines(text: &str) -> Vec<String> {
    text.lines().map(|line| line.to_string()).collect()
}

#[test]
fn whitespace_is_the_unicode_property() {
    let mut code: u32 = 0;
    while code <= 0x10FFFF {
        if let Some(c) = char::from_u32(code) {
            assert_eq!(is_whitespace(c), c.is_whitespace(), "U+{:04X}", code);
        }
        code += 1;
    }
}

#[test]
fn whitespace_named_characters() {
    for c in [' ', '\t', '\n', '\r', '\u{0B}', '\u{0C}', '\u{85}', '\u{A0}', '\u{3000}'] {
        assert!(is_whitespace(c));
    }
    for c in ['a', ':', '0', '\u{0}', '\u{1F}', '\u{200B}', '\u{FEFF}'] {
        assert!(!is_whitespace(c));
    }
}

#[test]
fn chars_of_keeps_every_character() {
    assert_eq!(chars_of(""), Vec::<char>::new());
    assert_eq!(chars_of("a:b"), vec!['a', ':', 'b']);
    assert_eq!(chars_of("h\u{e9}\u{1F600}!"), vec!['h', '\u{e9}', '\u{1F600}', '!']);
}

#[test]
fn same_text_compares_characters() {
    assert!(same_text("", ""));
    assert!(same_text("GET", "GET"));
    assert!(!same_text("GET", "GE"));
    assert!(!same_text("GET", "GEt"));
    assert!(!same_text("GET", "GETS"));
}

#[test]
fn trimmed_removes_both_ends_only() {
    assert_eq!(trimmed("  a b  "), "a b");
    assert_eq!(trimmed("a"), "a");
    assert_eq!(trimmed(""), "");
    assert_eq!(trimmed(" \t\r\n"), "");
    assert_eq!(trimmed("\u{A0}x\u{3000}"), "x");
    assert_eq!(trimmed("\u{200B}x"), "\u{200B}x");
}

#[test]
fn trimmed_agrees_with_std() {
    for text in [
        "",
        " ",
        "a",
        " a",
        "a ",
        "  a  b  ",
        "\t\tkey\r",
        "\u{2003}wide\u{2003}",
        "\u{e9}t\u{e9} ",
        " \u{1F600} ",
        "\n\n",
    ] {
        assert_eq!(trimmed(text), text.trim());
    }
}

#[test]
fn trimmed_twice_is_trimmed_once() {
    for text in ["  a b  ", "", "   ", "x\t"] {
        let once = trimmed(text);
        assert_eq!(trimmed(&once), once);
    }
}

#[test]
fn split_lines_at_line_feeds() {
    assert_eq!(split_lines("a\nb"), vec!["a", "b"]);
    assert_eq!(split_lines("a\nb\n"), vec!["a", "b"]);
    assert_eq!(split_lines("a\n\nb"), vec!["a", "", "b"]);
    assert_eq!(split_lines("\n"), vec![""]);
    assert_eq!(split_lines(""), Vec::<String>::new());
    assert_eq!(split_lines("one line"), vec!["one line"]);
}

#[test]
fn split_lines_drops_a_carriage_return_before_a_line_feed() {
    assert_eq!(split_lines("a\r\nb\r\n"), vec!["a", "b"]);
    assert_eq!(split_lines("a\r\r\nb"), vec!["a\r", "b"]);
    assert_eq!(split_lines("a\rb\n"), vec!["a\rb"]);
    assert_eq!(split_lines("a\r"), vec!["a\r"]);
    assert_eq!(split_lines("\r\n"), vec![""]);
}

#[test]
fn split_lines_agrees_with_std() {
    for text in [
        "",
        "\n",
        "\r\n",
        "\r",
        "a",
        "a\n",
        "a\r\n",
        "a\r",
        "a\nb",
        "a\r\nb\r\n",
        "a\n\n\nb\n\n",
        "\n\na",
        "A: 1\nB: 2\r\nC: 3",
        "\u{e9}\n\u{1F600}\r\n",
        "a\r\r\n\rb",
    ] {
        assert_eq!(split_lines(text), std_lines(text), "{:?}", text);
    }
}
