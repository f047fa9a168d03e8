use blog_render::math_span::{extract_with, payload_list};
use blog_render::render::{convert, render};

fn strings(items: &[&str]) -> Vec<String> {
    items.iter().map(|s| s.to_string()).collect()
}

#[test]
fn plain_text_is_kept() {
    let out = render("plain text".to_string());
    assert!(out.contains("plain text"));
    assert_eq!(out, "<p>plain text</p>\n");
}

#[test]
fn text_without_delimiters_renders_as_converted() {
    let input = "# Title\n\nSome *emphasis* and a [link](http://example.com).";
    assert_eq!(render(input.to_string()), convert(input));
    assert!(payload_list(input).is_empty());
}

#[test]
fn literal_text_passes_with_escaping_only() {
    assert_eq!(render("hello world".to_string()), "<p>hello world</p>\n");
    assert_eq!(render("a < b & c".to_string()), "<p>a &lt; b &amp; c</p>\n");
}

#[test]
fn single_span_payload_and_substitution() {
    let input = "a $x+1$ b";
    assert_eq!(payload_list(input), strings(&["x+1"]));
    let body = extract_with(input, &strings(&["<span class=\"m\">X</span>"]));
    assert_eq!(body, "a <span class=\"m\">X</span> b");
    let html = convert(&body);
    assert_eq!(html, "<p>a <span class=\"m\">X</span> b</p>\n");
}

#[test]
fn unpaired_delimiter_is_dropped() {
    let input = "odd $x";
    assert!(payload_list(input).is_empty());
    assert_eq!(extract_with(input, &Vec::new()), "odd x");
    let out = render(input.to_string());
    assert_eq!(out, convert("odd x"));
    assert!(out.contains("odd x"));
    assert!(!out.contains('$'));
}

#[test]
fn adjacent_delimiters_give_empty_payload() {
    assert_eq!(payload_list("$$"), strings(&[""]));
    assert_eq!(extract_with("$$", &strings(&["<b>E</b>"])), "<b>E</b>");
}

#[test]
fn strikethrough_is_enabled() {
    let out = render("~~gone~~".to_string());
    assert!(out.contains("<del>gone</del>"));
}

#[test]
fn delimiters_pair_in_order() {
    assert_eq!(payload_list("$a$ and $b$ and $c$"), strings(&["a", "b", "c"]));
    assert_eq!(payload_list("$a$b$c$"), strings(&["a", "c"]));
    let out = extract_with("$a$b$c$", &strings(&["1", "2"]));
    assert_eq!(out, "1b2");
}

#[test]
fn odd_delimiters_keep_trailing_text() {
    let input = "x $a$ y $b z";
    assert_eq!(payload_list(input), strings(&["a"]));
    assert_eq!(extract_with(input, &strings(&["A"])), "x A y b z");
}

#[test]
fn payloads_keep_other_characters() {
    let input = "é $\\frac{1}{2}$ ü";
    assert_eq!(payload_list(input), strings(&["\\frac{1}{2}"]));
    assert_eq!(extract_with(input, &strings(&["<i>h</i>"])), "é <i>h</i> ü");
}

#[test]
fn empty_text() {
    assert!(payload_list("").is_empty());
    assert_eq!(extract_with("", &Vec::new()), "");
    assert_eq!(render(String::new()), "");
}
