use ronat::helpers::{contains_name, from_chars, prepare_line, to_chars, to_text_block};
use ronat::host::{AttributeValue, RawAttribute};

fn doc(text: &str) -> RawAttribute {
    RawAttribute { name: "doc".to_string(), value: AttributeValue::Text(text.to_string()) }
}

#[test]
fn prepare_line_strips_outer_doc_marker() {
    assert_eq!(prepare_line("/// Some text".to_string()), "Some text");
    assert_eq!(prepare_line("///Some text".to_string()), "Some text");
    assert_eq!(prepare_line("///".to_string()), "");
}

#[test]
fn prepare_line_strips_inner_doc_marker() {
    assert_eq!(prepare_line("//! Some text".to_string()), "Some text");
    assert_eq!(prepare_line("//!Some text".to_string()), "Some text");
    assert_eq!(prepare_line("//!".to_string()), "");
}

#[test]
fn prepare_line_strips_plain_comment_marker() {
    assert_eq!(prepare_line("// Some text".to_string()), "Some text");
    assert_eq!(prepare_line("//Some text".to_string()), "Some text");
}

#[test]
fn prepare_line_keeps_text_without_marker() {
    assert_eq!(prepare_line("".to_string()), "");
    assert_eq!(prepare_line("Some text".to_string()), "Some text");
    assert_eq!(prepare_line(" / / ! ".to_string()), " / / ! ");
    assert_eq!(prepare_line("/".to_string()), "/");
}

#[test]
fn prepare_line_removes_markers_anywhere() {
    assert_eq!(prepare_line("see http://example.com".to_string()), "see http:example.com");
    assert_eq!(prepare_line("a // b".to_string()), "a b");
    assert_eq!(prepare_line("/// one\n/// two".to_string()), "one\ntwo");
}

#[test]
fn prepare_line_takes_markers_in_turn() {
    // `///` leaves one slash of four, and the last pass finds no pair.
    assert_eq!(prepare_line("////".to_string()), "/");
    // `//!` goes first and leaves `//`, which the last pass removes.
    assert_eq!(prepare_line("///!/".to_string()), "");
    // The marker with the blank goes before the one without.
    assert_eq!(prepare_line("//!  x".to_string()), " x");
    assert_eq!(prepare_line("/////".to_string()), "");
    assert_eq!(prepare_line("// // x".to_string()), "x");
}

#[test]
fn prepare_line_keeps_other_scripts() {
    assert_eq!(prepare_line("/// größer – 大".to_string()), "größer – 大");
}

#[test]
fn characters_round_trip() {
    let chars = to_chars("a/ü");
    assert_eq!(chars, vec!['a', '/', 'ü']);
    assert_eq!(from_chars(&chars), "a/ü");
    assert_eq!(from_chars(&Vec::new()), "");
}

#[test]
fn contains_name_finds_only_exact_names() {
    let names = vec!["bar".to_string(), "Baz".to_string()];
    assert!(contains_name(&names, &"bar".to_string()));
    assert!(contains_name(&names, &"Baz".to_string()));
    assert!(!contains_name(&names, &"baz".to_string()));
    assert!(!contains_name(&names, &"ba".to_string()));
    assert!(!contains_name(&Vec::new(), &"bar".to_string()));
}

#[test]
fn text_block_of_no_attributes_is_empty() {
    assert_eq!(to_text_block(&[]), "");
}

#[test]
fn text_block_joins_lines_in_order() {
    let attrs = vec![doc("/// First."), doc("///"), doc("/// Second.")];
    assert_eq!(to_text_block(&attrs), "First.\n\nSecond.");
}

#[test]
fn text_block_of_one_line_has_no_newline() {
    assert_eq!(to_text_block(&[doc("/// Only.")]), "Only.");
    assert_eq!(to_text_block(&[doc("")]), "");
}

#[test]
fn text_block_passes_over_attributes_without_text() {
    let attrs = vec![
        RawAttribute { name: "inline".to_string(), value: AttributeValue::Word },
        doc("/// Kept."),
        RawAttribute {
            name: "doc".to_string(),
            value: AttributeValue::List(vec!["hidden".to_string()]),
        },
        RawAttribute { name: "recursion_limit".to_string(), value: AttributeValue::Literal },
        doc("//! Too."),
    ];
    assert_eq!(to_text_block(&attrs), "Kept.\nToo.");
}

#[test]
fn text_block_takes_doc_attributes_alone() {
    let attrs = vec![
        RawAttribute {
            name: "deprecated".to_string(),
            value: AttributeValue::Text("use the other one".to_string()),
        },
        doc("/// Text."),
    ];
    assert_eq!(to_text_block(&attrs), "Text.");
    let attrs = vec![
        doc("/// a"),
        RawAttribute { name: "deprecated".to_string(), value: AttributeValue::Text("old".to_string()) },
    ];
    assert_eq!(to_text_block(&attrs), "a");
    let attrs = vec![
        RawAttribute { name: "Doc".to_string(), value: AttributeValue::Text("/// A".to_string()) },
        RawAttribute { name: "docs".to_string(), value: AttributeValue::Text("/// B".to_string()) },
        RawAttribute { name: "".to_string(), value: AttributeValue::Text("/// C".to_string()) },
        RawAttribute { name: "path".to_string(), value: AttributeValue::Text("x.rs".to_string()) },
    ];
    assert_eq!(to_text_block(&attrs), "");
}
