use ronat::doc_params_mismatch::{
    mismatch, named_inputs, names_without_parameter, parameter_names, DocParamsMismatch,
};
use ronat::host::{
    AttributeValue, Diagnostic, FunctionSignature, HostContext, Item, ItemKind, RawAttribute,
    SourceSpan,
};
use ronat::sections::{is_readable, parse_docblock, DocSection, StructuredDocParseError};

const SPAN: SourceSpan = SourceSpan { lo: 10, hi: 42 };

fn doc(text: &str) -> RawAttribute {
    RawAttribute { name: "doc".to_string(), value: AttributeValue::Text(text.to_string()) }
}

fn function(names: &[&str]) -> ItemKind {
    ItemKind::Fn(FunctionSignature {
        inputs: names.iter().map(|name| Some(name.to_string())).collect(),
    })
}

fn host() -> HostContext {
    HostContext { test_harness: false, exported: vec![3, 7] }
}

fn item(lines: &[&str], node: ItemKind) -> Item {
    Item { id: 7, attrs: lines.iter().map(|line| doc(line)).collect(), node, span: SPAN }
}

fn said(name: &str) -> Diagnostic {
    Diagnostic {
        span: SPAN,
        message: format!("The documented parameter '{}' does not exist for this function.", name),
    }
}

fn pair(name: &str, text: &str) -> (String, String) {
    (name.to_string(), text.to_string())
}

#[test]
fn documented_parameter_that_does_not_exist() {
    let it = item(&["/// # Parameters\n/// - `bar`: a thing"], function(&["x"]));
    let found = DocParamsMismatch.check_item(&host(), &it);
    assert_eq!(found.len(), 1);
    assert_eq!(
        found[0].message,
        "The documented parameter 'bar' does not exist for this function."
    );
    assert_eq!(found[0].span, SPAN);
}

#[test]
fn documented_parameter_line_by_line() {
    let it = item(&["/// # Parameters", "/// - `bar`: a thing"], function(&["x"]));
    assert_eq!(DocParamsMismatch.check_item(&host(), &it), vec![said("bar")]);
}

#[test]
fn empty_doc_text_gives_no_mismatch() {
    assert_eq!(DocParamsMismatch.check_item(&host(), &item(&[""], function(&["x"]))), vec![]);
    assert_eq!(DocParamsMismatch.check_item(&host(), &item(&[], function(&["x"]))), vec![]);
    assert_eq!(DocParamsMismatch.check_item(&host(), &item(&["///"], function(&[]))), vec![]);
}

#[test]
fn wrong_parameter_name_below_a_summary() {
    let it = item(
        &[
            "/// This is an header.",
            "///",
            "/// # Parameters",
            "///",
            "/// - `foo`: Incorrect variable name",
        ],
        function(&["bar"]),
    );
    assert_eq!(DocParamsMismatch.check_item(&host(), &it), vec![said("foo")]);
}

#[test]
fn documented_parameters_that_exist_give_nothing() {
    let it = item(
        &["/// Adds.", "///", "/// # Parameters", "///", "/// - `a`: left", "/// - `b`: right"],
        function(&["a", "b"]),
    );
    assert_eq!(DocParamsMismatch.check_item(&host(), &it), vec![]);
}

#[test]
fn undocumented_parameters_give_nothing() {
    let it = item(
        &["/// Adds.", "///", "/// # Parameters", "///", "/// - `a`: left"],
        function(&["a", "b", "c"]),
    );
    assert_eq!(DocParamsMismatch.check_item(&host(), &it), vec![]);
}

#[test]
fn no_parameters_section_gives_nothing() {
    let it = item(
        &["/// Adds.", "///", "/// # Examples", "///", "/// - `zzz`: not a parameter"],
        function(&["a"]),
    );
    assert_eq!(DocParamsMismatch.check_item(&host(), &it), vec![]);
    let plain = item(&["/// Adds `zzz` to nothing."], function(&["a"]));
    assert_eq!(DocParamsMismatch.check_item(&host(), &plain), vec![]);
}

#[test]
fn names_are_compared_by_case() {
    let it = item(&["/// # Parameters", "/// - `Bar`: a thing"], function(&["bar"]));
    assert_eq!(DocParamsMismatch.check_item(&host(), &it), vec![said("Bar")]);
}

#[test]
fn diagnostics_follow_the_order_of_the_text() {
    let it = item(
        &["/// # Parameters", "/// - `one`: 1", "/// - `x`: real", "/// - `two`: 2", "/// - `three`: 3"],
        function(&["x"]),
    );
    assert_eq!(
        DocParamsMismatch.check_item(&host(), &it),
        vec![said("one"), said("two"), said("three")]
    );
}

#[test]
fn every_parameters_section_counts() {
    let it = item(
        &[
            "/// # Parameters",
            "/// - `first`: 1",
            "///",
            "/// # Examples",
            "///",
            "/// None yet.",
            "///",
            "/// # Parameters",
            "/// - `second`: 2",
        ],
        function(&["x"]),
    );
    assert_eq!(DocParamsMismatch.check_item(&host(), &it), vec![said("first"), said("second")]);
}

#[test]
fn a_name_documented_twice_is_reported_once() {
    let it = item(
        &["/// # Parameters", "/// - `bar`: a thing", "/// - `baz`: else", "/// - `bar`: again"],
        function(&["x"]),
    );
    assert_eq!(DocParamsMismatch.check_item(&host(), &it), vec![said("bar"), said("baz")]);
}

#[test]
fn parameters_that_are_patterns_bear_no_name() {
    let node = ItemKind::Fn(FunctionSignature {
        inputs: vec![None, Some("b".to_string()), None],
    });
    let it = item(&["/// # Parameters", "/// - `a`: left", "/// - `b`: right"], node);
    assert_eq!(DocParamsMismatch.check_item(&host(), &it), vec![said("a")]);
}

#[test]
fn other_declarations_are_not_checked() {
    let lines = ["/// # Parameters", "/// - `bar`: a thing"];
    for node in [
        ItemKind::ExternCrate,
        ItemKind::Use,
        ItemKind::Static,
        ItemKind::Const,
        ItemKind::Mod,
        ItemKind::ForeignMod,
        ItemKind::Ty,
        ItemKind::Enum,
        ItemKind::Struct,
        ItemKind::Union,
        ItemKind::Trait,
        ItemKind::DefaultImpl,
        ItemKind::Impl,
    ] {
        assert_eq!(DocParamsMismatch.check_item(&host(), &item(&lines, node)), vec![]);
    }
}

#[test]
fn declaration_that_is_not_exported_gives_nothing() {
    let mut it = item(&["/// # Parameters", "/// - `bar`: a thing"], function(&["x"]));
    it.id = 8;
    assert_eq!(DocParamsMismatch.check_item(&host(), &it), vec![]);
    let nothing_exported = HostContext { test_harness: false, exported: vec![] };
    it.id = 7;
    assert_eq!(DocParamsMismatch.check_item(&nothing_exported, &it), vec![]);
}

#[test]
fn test_harness_gives_nothing() {
    let it = item(&["/// # Parameters", "/// - `bar`: a thing"], function(&["x"]));
    let harness = HostContext { test_harness: true, exported: vec![3, 7] };
    assert_eq!(DocParamsMismatch.check_item(&harness, &it), vec![]);
    assert_eq!(
        DocParamsMismatch.lint(&harness, None, &it.attrs, &it.node, it.span),
        vec![]
    );
}

#[test]
fn declaration_without_id_is_always_checked() {
    let it = item(&["/// # Parameters", "/// - `bar`: a thing"], function(&["x"]));
    let nothing_exported = HostContext { test_harness: false, exported: vec![] };
    assert_eq!(
        DocParamsMismatch.lint(&nothing_exported, None, &it.attrs, &it.node, it.span),
        vec![said("bar")]
    );
}

#[test]
fn malformed_sections_give_nothing() {
    // A paragraph where the list of parameters must stand.
    let it = item(
        &["/// Lorem ipsum", "///", "/// # Parameters", "///", "/// Dafuq", "///", "/// - `foo`: Bar"],
        function(&["x"]),
    );
    assert_eq!(DocParamsMismatch.check_item(&host(), &it), vec![]);
    // An entry without its colon.
    let it = item(
        &["/// # Parameters", "/// - `foo`: Bar", "/// - `other` some other thing"],
        function(&["x"]),
    );
    assert_eq!(DocParamsMismatch.check_item(&host(), &it), vec![]);
}

#[test]
fn check_twice_gives_the_same() {
    let it = item(
        &["/// # Parameters", "/// - `bar`: a thing", "/// - `baz`: else"],
        function(&["x"]),
    );
    let first = DocParamsMismatch.check_item(&host(), &it);
    let second = DocParamsMismatch.check_item(&host(), &it);
    assert_eq!(first, second);
    assert_eq!(first.len(), 2);
}

#[test]
fn is_exported_looks_the_id_up() {
    let cx = host();
    assert!(cx.is_exported(3));
    assert!(cx.is_exported(7));
    assert!(!cx.is_exported(0));
    assert!(!cx.is_exported(8));
    assert!(cx.is_checked(Some(3)));
    assert!(!cx.is_checked(Some(4)));
    assert!(cx.is_checked(None));
    let harness = HostContext { test_harness: true, exported: vec![3] };
    assert!(!harness.is_checked(Some(3)));
    assert!(!harness.is_checked(None));
}

#[test]
fn mismatch_names_the_parameter() {
    let found = mismatch(SPAN, &"bar".to_string());
    assert_eq!(found, said("bar"));
    assert_eq!(
        mismatch(SPAN, &"".to_string()).message,
        "The documented parameter '' does not exist for this function."
    );
}

#[test]
fn named_inputs_keeps_the_names_in_order() {
    let signature = FunctionSignature {
        inputs: vec![Some("a".to_string()), None, Some("c".to_string()), Some("a".to_string())],
    };
    assert_eq!(named_inputs(&signature), vec!["a", "c", "a"]);
    assert_eq!(named_inputs(&FunctionSignature { inputs: vec![] }), Vec::<String>::new());
    assert_eq!(named_inputs(&FunctionSignature { inputs: vec![None] }), Vec::<String>::new());
}

#[test]
fn parameter_names_come_from_parameters_sections_only() {
    let sections = vec![
        DocSection::TypeParameters(vec![pair("T", "a type")]),
        DocSection::Parameters(vec![pair("a", "left"), pair("b", "right")]),
        DocSection::Prose("Examples".to_string(), "- `zzz`: no".to_string()),
        DocSection::LifetimeParameters(vec![pair("'a", "a lifetime")]),
        DocSection::Returns("A value".to_string(), vec![pair("Some(x)", "found")]),
        DocSection::Parameters(vec![pair("c", "more")]),
        DocSection::Parameters(vec![]),
    ];
    assert_eq!(parameter_names(&sections), vec!["a", "b", "c"]);
    assert_eq!(parameter_names(&Vec::new()), Vec::<String>::new());
}

#[test]
fn names_without_parameter_keeps_first_mentions() {
    let documented: Vec<String> =
        ["x", "a", "b", "a", "y", "b", "c"].iter().map(|name| name.to_string()).collect();
    let actual: Vec<String> = ["x", "y"].iter().map(|name| name.to_string()).collect();
    assert_eq!(names_without_parameter(&documented, &actual), vec!["a", "b", "c"]);
    assert_eq!(names_without_parameter(&documented, &Vec::new()), vec!["x", "a", "b", "y", "c"]);
    assert_eq!(names_without_parameter(&Vec::new(), &actual), Vec::<String>::new());
    assert_eq!(names_without_parameter(&actual, &actual), Vec::<String>::new());
}

#[test]
fn sections_of_a_block_with_summary() {
    let parsed = parse_docblock(
        "Lorem ipsum\n\nDolor sit amet.\n\n# Parameters\n\n- `param1`: Foo\n- `param2`: Bar\n",
    );
    assert_eq!(
        parsed,
        Ok(vec![DocSection::Parameters(vec![pair("param1", "Foo"), pair("param2", "Bar")])])
    );
}

#[test]
fn sections_of_a_block_without_summary() {
    let parsed = parse_docblock("# Parameters\n\n- `foo`: Bar");
    assert_eq!(parsed, Ok(vec![DocSection::Parameters(vec![pair("foo", "Bar")])]));
}

#[test]
fn sections_of_every_kind() {
    let parsed = parse_docblock(
        "Sum.\n\n# Type parameters\n\n- `T`: a type\n\n# Lifetimes\n\n- `'a`: long\n\n# Returns\n\nA value\n\n- `Some(x)`: found\n\n# Safety\n\nNone at all.\n",
    );
    assert_eq!(
        parsed,
        Ok(vec![
            DocSection::TypeParameters(vec![pair("T", "a type")]),
            DocSection::LifetimeParameters(vec![pair("'a", "long")]),
            DocSection::Returns("A value".to_string(), vec![pair("Some(x)", "found")]),
            DocSection::Prose("Safety".to_string(), "None at all.".to_string()),
        ])
    );
}

#[test]
fn sections_of_plain_text_are_none() {
    assert_eq!(parse_docblock(""), Ok(vec![]));
    assert_eq!(parse_docblock("Just a sentence."), Ok(vec![]));
    assert_eq!(parse_docblock("One.\n\nTwo.\n\n    code\n"), Ok(vec![]));
}

#[test]
fn malformed_sections_are_an_error() {
    assert_eq!(
        parse_docblock("Lorem ipsum\n\n# Parameters\n\nDafuq\n\n- `foo`: Bar"),
        Err(StructuredDocParseError::Malformed)
    );
    assert_eq!(parse_docblock("Lorem ipsum\n\n# Parameters\n\n- Bar\n    "), Err(StructuredDocParseError::Malformed));
    assert_eq!(
        parse_docblock("Lorem ipsum\n\n# Parameters\n\n- `foo`: Bar\n- `other` some other thing\n"),
        Err(StructuredDocParseError::Malformed)
    );
}

#[test]
fn text_that_the_parser_is_not_given_is_an_error() {
    for text in [
        "a \\ b",
        "a\\",
        "\\",
        "escaped \\* star",
        "two \\\\n",
        "\\\u{e9}",
        "# Parameters\n\n- `a`: ends in \\\n",
        "<!DOCTYPE html",
        "Text <!ELEMENT a> more",
        "<pre\u{e9}",
        "Text.\n\n<script€>",
        "<style大 x",
    ] {
        assert_eq!(parse_docblock(text), Err(StructuredDocParseError::Unsupported), "{:?}", text);
    }
}

#[test]
fn backslash_before_a_letter_or_digit_is_read() {
    assert_eq!(parse_docblock("a\\b"), Ok(vec![]));
    assert_eq!(
        parse_docblock("Splits at `\\n`.\n\n# Parameters\n\n- `sep`: `\\t` or `\\0`, as in C:\\dir"),
        Ok(vec![DocSection::Parameters(vec![pair("sep", "`\\t` or `\\0`, as in C:\\dir")])])
    );
    let it = item(&["/// a\\b", "///", "/// # Parameters", "/// - `bar`: a \\n"], function(&["x"]));
    assert_eq!(DocParamsMismatch.check_item(&host(), &it), vec![said("bar")]);
}

#[test]
fn comment_of_html_is_read() {
    assert_eq!(
        parse_docblock("Sum.\n\n<!-- a note -->\n\n# Parameters\n\n- `a`: left <!-- sic -->\n"),
        Ok(vec![DocSection::Parameters(vec![pair("a", "left")])])
    );
    assert_eq!(parse_docblock("<!-- only -->"), Ok(vec![]));
    assert_eq!(parse_docblock("<![CDATA[ x ]]> and <!"), Ok(vec![]));
}

#[test]
fn carriage_return_is_read() {
    assert_eq!(parse_docblock("a\rb"), Ok(vec![]));
    assert_eq!(parse_docblock("a\u{0}b\u{c}c\u{7f}"), Ok(vec![]));
    assert_eq!(
        parse_docblock("Sum.\r\n\r\n# Parameters\r\n\r\n- `a`: left\r\n- `b`: right\r\n"),
        Ok(vec![DocSection::Parameters(vec![pair("a", "left"), pair("b", "right")])])
    );
}

#[test]
fn sections_of_text_in_other_scripts() {
    assert_eq!(
        parse_docblock("Größe – 大きさ.\n\n# Parameters\n\n- `größe`: die Größe\n- `x`: “x”"),
        Ok(vec![DocSection::Parameters(vec![pair("größe", "die Größe"), pair("x", "“x”")])])
    );
    assert_eq!(parse_docblock("<pre>é</pre>\n\n<b>é</b> <pre é"), Ok(vec![]));
}

#[test]
fn parameter_in_another_script() {
    let it = item(
        &["/// Größe.", "///", "/// # Parameters", "///", "/// - `größe`: die Größe"],
        function(&["grösse"]),
    );
    assert_eq!(DocParamsMismatch.check_item(&host(), &it), vec![said("größe")]);
    let it = item(&["/// # Parameters", "/// - `größe`: die Größe"], function(&["größe"]));
    assert_eq!(DocParamsMismatch.check_item(&host(), &it), vec![]);
}

#[test]
fn readable_texts() {
    assert!(is_readable(""));
    assert!(is_readable("Plain text, with `code`, <b>tags</b> and tabs\t.\n~ !"));
    assert!(is_readable("< !"));
    assert!(is_readable("!<"));
    assert!(!is_readable("\\"));
    assert!(!is_readable("a\\ b"));
    assert!(!is_readable("a\\\nb"));
    assert!(!is_readable("\\\\"));
    assert!(!is_readable("\\_"));
    assert!(!is_readable("\\\u{e9}"));
    assert!(is_readable("\\n"));
    assert!(is_readable("a\\b \\0 \\Z9"));
    assert!(is_readable("a\rb\r\n"));
    assert!(is_readable("<!"));
    assert!(is_readable("a<!--b-->"));
    assert!(is_readable("<![CDATA[x]]>"));
    assert!(is_readable("<!doctype html>"));
    assert!(is_readable("<! A"));
    assert!(!is_readable("<!DOCTYPE html>"));
    assert!(!is_readable("x<!E"));
    assert!(!is_readable("<!Z"));
    assert!(is_readable("\u{0}\u{1f}\u{7f}\u{85}"));
    assert!(is_readable("é – 大 😀"));
    assert!(is_readable("<pre>é"));
    assert!(is_readable("<pre é"));
    assert!(is_readable("pre\u{e9}"));
    assert!(is_readable("<PRE\u{e9}"));
    assert!(is_readable("<prä"));
    assert!(!is_readable("<pre\u{e9}"));
    assert!(!is_readable("a<script😀"));
    assert!(!is_readable("<style\u{80}"));
}

#[test]
fn text_that_the_parser_is_not_given_gives_no_mismatch() {
    let it = item(
        &["/// # Parameters", "/// - `bar`: a thing with a \\ in it"],
        function(&["x"]),
    );
    assert_eq!(DocParamsMismatch.check_item(&host(), &it), vec![]);
}
