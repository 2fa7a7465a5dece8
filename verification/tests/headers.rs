use getman::headers::{parse_header_line, parse_headers, put_header, Header};

fn header(name: &str, value: &str) -> Header {
    Header { name: name.to_string(), value: value.to_string() }
}

#[test]
fn line_with_name_and_value() {
    assert_eq!(parse_header_line("A: B"), Some(header("A", "B")));
}

#[test]
fn line_without_colon_is_no_header() {
    assert_eq!(parse_header_line("no colon here"), None);
    assert_eq!(parse_header_line(""), None);
    assert_eq!(parse_header_line("   "), None);
}

#[test]
fn line_is_split_at_its_first_colon() {
    assert_eq!(parse_header_line("Host: example.org:8080"), Some(header("Host", "example.org:8080")));
    assert_eq!(parse_header_line("a:b:c"), Some(header("a", "b:c")));
    assert_eq!(parse_header_line("::"), Some(header("", ":")));
}

#[test]
fn name_and_value_are_trimmed() {
    assert_eq!(parse_header_line("  Accept \t:\t text/html  "), Some(header("Accept", "text/html")));
    assert_eq!(parse_header_line("X-Note: two  words "), Some(header("X-Note", "two  words")));
    assert_eq!(parse_header_line("\u{A0}K\u{A0}:\u{3000}v\u{3000}"), Some(header("K", "v")));
}

#[test]
fn name_or_value_may_be_empty() {
    assert_eq!(parse_header_line("A:"), Some(header("A", "")));
    assert_eq!(parse_header_line(":B"), Some(header("", "B")));
    assert_eq!(parse_header_line(":"), Some(header("", "")));
    assert_eq!(parse_header_line(" : "), Some(header("", "")));
}

#[test]
fn block_with_one_header_per_line() {
    assert_eq!(
        parse_headers("Accept: application/json\nX-Token: abc"),
        vec![header("Accept", "application/json"), header("X-Token", "abc")]
    );
}

#[test]
fn block_passes_over_lines_without_colon() {
    assert_eq!(
        parse_headers("first\nA: 1\n\nnot a header\nB: 2\nlast"),
        vec![header("A", "1"), header("B", "2")]
    );
    assert_eq!(parse_headers("A: 1\nB: 2"), parse_headers("x\nA: 1\ny\nB: 2\nz"));
}

#[test]
fn empty_block_has_no_headers() {
    assert_eq!(parse_headers(""), Vec::<Header>::new());
    assert_eq!(parse_headers("\n\n"), Vec::<Header>::new());
    assert_eq!(parse_headers("nothing"), Vec::<Header>::new());
}

#[test]
fn block_with_carriage_returns() {
    assert_eq!(parse_headers("A: 1\r\nB: 2\r\n"), vec![header("A", "1"), header("B", "2")]);
}

#[test]
fn repeated_name_keeps_first_place_and_last_value() {
    assert_eq!(
        parse_headers("A: 1\nB: 2\nA: 3\nC: 4\nB: 5"),
        vec![header("A", "3"), header("B", "5"), header("C", "4")]
    );
}

#[test]
fn names_differing_in_case_are_different() {
    assert_eq!(parse_headers("a: 1\nA: 2"), vec![header("a", "1"), header("A", "2")]);
}

#[test]
fn names_are_compared_after_trimming() {
    assert_eq!(parse_headers("A : 1\n A: 2"), vec![header("A", "2")]);
}

#[test]
fn put_header_appends_a_new_name() {
    let mut headers = vec![header("A", "1")];
    put_header(&mut headers, header("B", "2"));
    assert_eq!(headers, vec![header("A", "1"), header("B", "2")]);
}

#[test]
fn put_header_replaces_a_known_name() {
    let mut headers = vec![header("A", "1"), header("B", "2")];
    put_header(&mut headers, header("A", "9"));
    assert_eq!(headers, vec![header("A", "9"), header("B", "2")]);
}

#[test]
fn put_header_into_an_empty_list() {
    let mut headers = Vec::new();
    put_header(&mut headers, header("A", "1"));
    assert_eq!(headers, vec![header("A", "1")]);
}
