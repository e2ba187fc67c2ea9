use lance_namespace_ffi::tsv::{parse_headers_tsv, storage_options_to_tsv};
use std::collections::HashMap;

fn pair(k: &str, v: &str) -> (String, String) {
    (k.to_string(), v.to_string())
}

fn options(entries: &[(&str, &str)]) -> HashMap<String, String> {
    let mut m = HashMap::new();
    for (k, v) in entries {
        m.insert(k.to_string(), v.to_string());
    }
    m
}

#[test]
fn headers_absent() {
    assert!(parse_headers_tsv(None).is_empty());
    assert!(parse_headers_tsv(Some("")).is_empty());
}

#[test]
fn headers_in_order() {
    assert_eq!(
        parse_headers_tsv(Some("x-a\t1\nx-b\t2\n")),
        vec![pair("x-a", "1"), pair("x-b", "2")]
    );
}

#[test]
fn headers_split_at_the_first_tab() {
    assert_eq!(parse_headers_tsv(Some("k\ta\tb")), vec![pair("k", "a\tb")]);
    assert_eq!(parse_headers_tsv(Some("k\t")), vec![pair("k", "")]);
}

#[test]
fn header_lines_of_another_form_are_skipped() {
    assert_eq!(
        parse_headers_tsv(Some("no tab\n\tno key\n\nk\tv")),
        vec![pair("k", "v")]
    );
}

#[test]
fn header_line_ends() {
    // A carriage return goes with the line feed behind it, and only then.
    assert_eq!(
        parse_headers_tsv(Some("a\t1\r\nb\t2\r\r\nc\t3\r")),
        vec![pair("a", "1"), pair("b", "2\r"), pair("c", "3\r")]
    );
    assert_eq!(parse_headers_tsv(Some("a\r\t1")), vec![pair("a\r", "1")]);
}

#[test]
fn header_lines_match_the_standard_library() {
    let text = "\u{e9}\t\u{fc}\r\n\r\n\n\rx\ty\r\nlast\tline";
    let expected: Vec<(String, String)> = text
        .lines()
        .filter_map(|line| line.split_once('\t'))
        .filter(|(k, _)| !k.is_empty())
        .map(|(k, v)| pair(k, v))
        .collect();
    assert_eq!(parse_headers_tsv(Some(text)), expected);
}

#[test]
fn storage_options_empty() {
    assert_eq!(storage_options_to_tsv(HashMap::new()), "");
}

#[test]
fn storage_options_sorted_by_key() {
    let m = options(&[("region", "eu"), ("access_key_id", "k"), ("endpoint", "http://e")]);
    assert_eq!(
        storage_options_to_tsv(m),
        "access_key_id\tk\nendpoint\thttp://e\nregion\teu"
    );
}

#[test]
fn storage_option_keys_order_by_code_point() {
    let entries = [("b", "1"), ("B", "2"), ("", "3"), ("ba", "4"), ("\u{e9}", "5"), ("\u{10000}", "6"), ("\u{ffff}", "7")];
    let mut sorted: Vec<(&str, &str)> = entries.to_vec();
    sorted.sort();
    let expected: Vec<String> = sorted.iter().map(|(k, v)| format!("{k}\t{v}")).collect();
    assert_eq!(storage_options_to_tsv(options(&entries)), expected.join("\n"));
}

#[test]
fn storage_options_do_not_depend_on_insertion_order() {
    let a = options(&[("a", "1"), ("b", "2"), ("c", "3"), ("d", "4")]);
    let b = options(&[("d", "4"), ("c", "3"), ("b", "2"), ("a", "1")]);
    assert_eq!(storage_options_to_tsv(a), storage_options_to_tsv(b));
}

#[test]
fn options_are_read_back_as_headers() {
    let m = options(&[("k2", "v 2"), ("k1", ""), ("k3", "a\tb\r")]);
    let text = storage_options_to_tsv(m);
    assert_eq!(
        parse_headers_tsv(Some(&text)),
        vec![pair("k1", ""), pair("k2", "v 2"), pair("k3", "a\tb\r")]
    );
}
