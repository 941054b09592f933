//! Turning raw comment lines into one plain text block.

use vstd::prelude::*;
use vstd::string::StringExecFns;
use crate::host::{AttributeModel, AttributeValue, AttributeValueModel, RawAttribute};

verus! {

/// `String::push` appends one character to the string.
pub assume_specification[ String::push ](s: &mut String, ch: char)
    ensures
        final(s)@ == old(s)@.push(ch),
;

/// The characters of `s`, in order.
pub fn to_chars(s: &str) -> (chars: Vec<char>)
    ensures
        chars@ == s@,
{
    let mut chars: Vec<char> = Vec::new();
    for c in it: s.chars()
        invariant
            chars@ == it.seq().take(it.index() as int),
            it.seq() == s@,
    {
        chars.push(c);
    }
    chars
}

/// The string whose characters are `chars`, in order.
pub fn from_chars(chars: &Vec<char>) -> (s: String)
    ensures
        s@ == chars@,
{
    let mut s = String::new();
    let mut i: usize = 0;
    while i < chars.len()
        invariant
            i <= chars.len(),
            s@ == chars@.take(i as int),
        decreases chars.len() - i,
    {
        s.push(chars[i]);
        i += 1;
    }
    s
}

/// Whether `name` is among `names`.
pub fn contains_name(names: &Vec<String>, name: &String) -> (found: bool)
    ensures
        found == names.deep_view().contains(name@),
{
    let mut i: usize = 0;
    while i < names.len()
        invariant
            i <= names.len(),
            forall|k: int| 0 <= k < i ==> names.deep_view()[k] != name@,
        decreases names.len() - i,
    {
        if names[i] == *name {
            assert(names.deep_view()[i as int] == name@);
            return true;
        }
        i += 1;
    }
    false
}

/// `text` without the occurrences of `pattern`, found from left to right and
/// never overlapping. An empty pattern removes nothing.
pub open spec fn remove_all(text: Seq<char>, pattern: Seq<char>) -> Seq<char>
    decreases text.len(),
{
    if pattern.len() == 0 || text.len() < pattern.len() {
        text
    } else if pattern.is_prefix_of(text) {
        remove_all(text.skip(pattern.len() as int), pattern)
    } else {
        seq![text[0]] + remove_all(text.skip(1), pattern)
    }
}

/// Whether `pattern` stands in `text` at position `at`.
fn occurs_at(text: &Vec<char>, at: usize, pattern: &Vec<char>) -> (found: bool)
    requires
        at <= text.len(),
    ensures
        found == pattern@.is_prefix_of(text@.skip(at as int)),
{
    if pattern.len() > text.len() - at {
        return false;
    }
    let mut j: usize = 0;
    while j < pattern.len()
        invariant
            at <= text.len(),
            pattern.len() <= text.len() - at,
            j <= pattern.len(),
            forall|k: int| 0 <= k < j ==> pattern@[k] == text@[at + k],
        decreases pattern.len() - j,
    {
        if pattern[j] != text[at + j] {
            return false;
        }
        j += 1;
    }
    true
}

/// Removes every occurrence of `pattern` from `text`.
fn remove_occurrences(text: &Vec<char>, pattern: &Vec<char>) -> (kept: Vec<char>)
    requires
        pattern.len() > 0,
    ensures
        kept@ == remove_all(text@, pattern@),
{
    let mut kept: Vec<char> = Vec::new();
    let mut i: usize = 0;
    assert(text@.skip(0) =~= text@);
    while i < text.len()
        invariant
            i <= text.len(),
            pattern.len() > 0,
            remove_all(text@, pattern@) == kept@ + remove_all(text@.skip(i as int), pattern@),
        decreases text.len() - i,
    {
        let ghost rest = text@.skip(i as int);
        if occurs_at(text, i, pattern) {
            assert(rest.skip(pattern@.len() as int) =~= text@.skip(i + pattern@.len()));
            i += pattern.len();
        } else {
            assert(rest.skip(1) =~= text@.skip(i + 1));
            assert(remove_all(rest, pattern@) =~= seq![rest[0]] + remove_all(
                rest.skip(1),
                pattern@,
            ));
            kept.push(text[i]);
            i += 1;
        }
    }
    kept
}

/// One raw comment line without its comment markers: each of the markers
/// `//! `, `//!`, `/// `, `///`, `// `, `//` is removed in turn, wherever it
/// stands in what the markers before it have left. A marker inside the text
/// goes as well: `http://` keeps no slash.
pub open spec fn prepared_line(line: Seq<char>) -> Seq<char> {
    remove_all(
        remove_all(
            remove_all(
                remove_all(remove_all(remove_all(line, "//! "@), "//!"@), "/// "@),
                "///"@,
            ),
            "// "@,
        ),
        "//"@,
    )
}

/// Strips the comment markers from one raw comment line.
pub fn prepare_line(input: String) -> (result: String)
    ensures
        result@ == prepared_line(input@),
{
    proof {
        reveal_strlit("//! ");
        reveal_strlit("//!");
        reveal_strlit("/// ");
        reveal_strlit("///");
        reveal_strlit("// ");
        reveal_strlit("//");
    }
    let mut line = to_chars(input.as_str());
    line = remove_occurrences(&line, &to_chars("//! "));
    line = remove_occurrences(&line, &to_chars("//!"));
    line = remove_occurrences(&line, &to_chars("/// "));
    line = remove_occurrences(&line, &to_chars("///"));
    line = remove_occurrences(&line, &to_chars("// "));
    line = remove_occurrences(&line, &to_chars("//"));
    from_chars(&line)
}

/// The documentation line that `attr` bears: the text of an attribute with
/// the name `doc` and a string for its value, without the comment markers. An
/// attribute of another name bears none, whatever its value, and neither
/// does a `doc` attribute whose value is no string.
pub open spec fn doc_line(attr: AttributeModel) -> Option<Seq<char>> {
    match attr.value {
        AttributeValueModel::Text(text) => if attr.name == "doc"@ {
            Some(prepared_line(text))
        } else {
            None
        },
        _ => None,
    }
}

/// The documentation lines among `attrs`, in order.
pub open spec fn doc_lines(attrs: Seq<AttributeModel>) -> Seq<Seq<char>>
    decreases attrs.len(),
{
    if attrs.len() == 0 {
        Seq::empty()
    } else {
        let before = doc_lines(attrs.drop_last());
        match doc_line(attrs.last()) {
            Some(line) => before.push(line),
            None => before,
        }
    }
}

/// `lines` with a newline between each two of them.
pub open spec fn joined(lines: Seq<Seq<char>>) -> Seq<char>
    decreases lines.len(),
{
    if lines.len() == 0 {
        Seq::empty()
    } else if lines.len() == 1 {
        lines[0]
    } else {
        joined(lines.drop_last()) + seq!['\n'] + lines.last()
    }
}

/// The text block of a declaration: its documentation lines, joined by
/// newlines.
pub open spec fn text_block(attrs: Seq<AttributeModel>) -> Seq<char> {
    joined(doc_lines(attrs))
}

/// Assembles the text block of a declaration from its attributes.
pub fn to_text_block(attrs: &[RawAttribute]) -> (block: String)
    ensures
        block@ == text_block(attrs.deep_view()),
{
    let mut block = String::new();
    let mut first = true;
    let mut i: usize = 0;
    while i < attrs.len()
        invariant
            i <= attrs.len(),
            first == (doc_lines(attrs.deep_view().take(i as int)).len() == 0),
            block@ == joined(doc_lines(attrs.deep_view().take(i as int))),
        decreases attrs.len() - i,
    {
        let ghost seen = attrs.deep_view().take(i as int);
        let ghost next = attrs.deep_view().take(i + 1);
        assert(next.drop_last() =~= seen);
        match &attrs[i].value {
            AttributeValue::Text(text) => {
                if attrs[i].name == String::from_str("doc") {
                    let line = prepare_line(text.clone());
                    assert(doc_lines(next).drop_last() =~= doc_lines(seen));
                    if !first {
                        block.push('\n');
                    }
                    block.append(line.as_str());
                    first = false;
                }
            },
            _ => {},
        }
        i += 1;
    }
    assert(attrs.deep_view().take(attrs.len() as int) =~= attrs.deep_view());
    block
}

} // verus!
