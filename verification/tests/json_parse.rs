use git_ai::json::parse_groups;

fn groups(g: &[&[&str]]) -> Vec<Vec<String>> {
    g.iter().map(|inner| inner.iter().map(|s| s.to_string()).collect()).collect()
}

/// The library parser accepts exactly what `serde_json` accepts for
/// `Vec<Vec<String>>`, and returns the same value.
fn agrees_with_serde(input: &str) {
    let ours = parse_groups(input);
    let serde: Option<Vec<Vec<String>>> = serde_json::from_str(input).ok();
    assert_eq!(ours, serde, "disagreement on input: {:?}", input);
}

#[test]
fn well_formed_response_parses_verbatim_in_order() {
    assert_eq!(
        parse_groups("[[\"a.rs\",\"b.rs\"],[\"c.md\"]]"),
        Some(groups(&[&["a.rs", "b.rs"], &["c.md"]]))
    );
}

#[test]
fn whitespace_between_tokens_is_allowed() {
    assert_eq!(
        parse_groups(" \n\t[ [ \"a\" ,\r\n \"b\" ] , [ ] ]  "),
        Some(groups(&[&["a", "b"], &[]]))
    );
}

#[test]
fn empty_arrays() {
    assert_eq!(parse_groups("[]"), Some(groups(&[])));
    assert_eq!(parse_groups("[[]]"), Some(groups(&[&[]])));
    assert_eq!(parse_groups(" [ ] "), Some(groups(&[])));
}

#[test]
fn escapes_are_decoded() {
    assert_eq!(
        parse_groups(r#"[["a\"b","c\\d","e\/f","g\nh","i\tj","k\rl","m\bn","o\fp"]]"#),
        Some(groups(&[&[
            "a\"b", "c\\d", "e/f", "g\nh", "i\tj", "k\rl", "m\u{8}n", "o\u{c}p"
        ]]))
    );
}

#[test]
fn unicode_escapes_and_surrogate_pairs() {
    assert_eq!(parse_groups(r#"[["\u0041"]]"#), Some(groups(&[&["A"]])));
    assert_eq!(parse_groups(r#"[["\u00e9"]]"#), Some(groups(&[&["é"]])));
    assert_eq!(
        parse_groups(r#"[["\ud83d\ude00"]]"#),
        Some(groups(&[&["\u{1F600}"]]))
    );
}

#[test]
fn non_ascii_text_passes_through() {
    assert_eq!(
        parse_groups("[[\"héllo/wörld.rs\"]]"),
        Some(groups(&[&["héllo/wörld.rs"]]))
    );
}

#[test]
fn malformed_inputs_are_rejected() {
    for bad in [
        "not json",
        "",
        "   ",
        "[",
        "]",
        "[]x",
        "x[]",
        "[\"a.rs\"]",
        "[[1]]",
        "[[\"a\",]]",
        "[[\"a\"],]",
        "[[\"a\"] [\"b\"]]",
        "[[\"a]]",
        "{\"a\": 1}",
        "[[\"\\q\"]]",
        "[[\"\\u12\"]]",
        "[[\"\\ud800\"]]",
        "[[\"\\ude00\\ud83d\"]]",
        "[[\"a\nb\"]]",
        "[[[\"a\"]]]",
        "[] []",
    ] {
        assert_eq!(parse_groups(bad), None, "should reject: {:?}", bad);
    }
}

#[test]
fn parser_agrees_with_serde_json() {
    for input in [
        "[[\"a.rs\",\"b.rs\"]]",
        " [ [ \"a\" ] , [ \"b\" , \"c\" ] ] ",
        "[]",
        "[[]]",
        "[[],[]]",
        r#"[["a\"b","c\\d","\u0041","\ud83d\ude00","e\/f"]]"#,
        "[[\"héllo\"]]",
        "not json",
        "",
        "[",
        "[]x",
        "[\"a\"]",
        "[[1]]",
        "[[\"a\",]]",
        "[[\"\\ud800\"]]",
        "[[\"a\nb\"]]",
        "[[[\"a\"]]]",
        "[[\"\u{7f}\"]]",
        "[ [\"mixed\\tescapes\\r\\n\", \"plain\"] , [] ]",
    ] {
        agrees_with_serde(input);
    }
}
