//! The sections of a documentation block.

use vstd::prelude::*;
use vstd::string::StringExecFns;
use crate::helpers::to_chars;

verus! {

/// A section of a documentation block. A section opens with a heading of the
/// first level, and its kind goes by the words of the heading.
#[derive(Clone, Debug, PartialEq, Eq)]
pub enum DocSection {
    /// A heading that has no meaning here, with the text below it.
    Prose(String, String),
    /// The parameters of a function: names with their descriptions, in the
    /// order of the text.
    Parameters(Vec<(String, String)>),
    /// The type parameters, in the same form.
    TypeParameters(Vec<(String, String)>),
    /// The lifetime parameters, in the same form.
    LifetimeParameters(Vec<(String, String)>),
    /// What is returned: a text, and patterns with their descriptions.
    Returns(String, Vec<(String, String)>),
}

/// The mathematical model of a [`DocSection`].
pub enum SectionModel {
    Prose(Seq<char>, Seq<char>),
    Parameters(Seq<(Seq<char>, Seq<char>)>),
    TypeParameters(Seq<(Seq<char>, Seq<char>)>),
    LifetimeParameters(Seq<(Seq<char>, Seq<char>)>),
    Returns(Seq<char>, Seq<(Seq<char>, Seq<char>)>),
}

impl View for DocSection {
    type V = SectionModel;

    open spec fn view(&self) -> SectionModel {
        match self {
            DocSection::Prose(heading, text) => SectionModel::Prose(heading@, text@),
            DocSection::Parameters(list) => SectionModel::Parameters(list.deep_view()),
            DocSection::TypeParameters(list) => SectionModel::TypeParameters(list.deep_view()),
            DocSection::LifetimeParameters(list) => SectionModel::LifetimeParameters(
                list.deep_view(),
            ),
            DocSection::Returns(text, list) => SectionModel::Returns(text@, list.deep_view()),
        }
    }
}

impl DeepView for DocSection {
    type V = SectionModel;

    open spec fn deep_view(&self) -> SectionModel {
        self@
    }
}

/// Why a text block has no sections to show.
#[derive(Clone, Copy, Debug, PartialEq, Eq, Structural)]
pub enum StructuredDocParseError {
    /// The text holds what the parser is not given.
    Unsupported,
    /// The text does not follow the grammar of sections.
    Malformed,
}

/// The letters and digits of ASCII.
pub open spec fn letter_or_digit(c: char) -> bool {
    ('0' <= c && c <= '9') || ('a' <= c && c <= 'z') || ('A' <= c && c <= 'Z')
}

/// Whether a backslash stands in `text` at `at` with no letter or digit of
/// ASCII behind it.
pub open spec fn bare_backslash_at(text: Seq<char>, at: int) -> bool {
    &&& 0 <= at < text.len()
    &&& text[at] == '\\'
    &&& !(at + 1 < text.len() && letter_or_digit(text[at + 1]))
}

/// Whether a declaration of HTML opens in `text` at `at`: a `<`, a `!` and a
/// capital letter of ASCII.
pub open spec fn declaration_at(text: Seq<char>, at: int) -> bool {
    &&& 0 <= at
    &&& at + 2 < text.len()
    &&& text[at] == '<'
    &&& text[at + 1] == '!'
    &&& 'A' <= text[at + 2]
    &&& text[at + 2] <= 'Z'
}

/// Whether one of `<pre`, `<script` and `<style` ends in `text` right before
/// `at`.
pub open spec fn raw_tag_before(text: Seq<char>, at: int) -> bool {
    ||| {
        &&& 4 <= at <= text.len()
        &&& text[at - 4] == '<'
        &&& text[at - 3] == 'p'
        &&& text[at - 2] == 'r'
        &&& text[at - 1] == 'e'
    }
    ||| {
        &&& 6 <= at <= text.len()
        &&& text[at - 6] == '<'
        &&& text[at - 5] == 's'
        &&& text[at - 4] == 't'
        &&& text[at - 3] == 'y'
        &&& text[at - 2] == 'l'
        &&& text[at - 1] == 'e'
    }
    ||| {
        &&& 7 <= at <= text.len()
        &&& text[at - 7] == '<'
        &&& text[at - 6] == 's'
        &&& text[at - 5] == 'c'
        &&& text[at - 4] == 'r'
        &&& text[at - 3] == 'i'
        &&& text[at - 2] == 'p'
        &&& text[at - 1] == 't'
    }
}

/// Whether a character outside ASCII stands in `text` at `at`, right behind
/// one of `<pre`, `<script` and `<style`.
pub open spec fn wide_behind_tag_at(text: Seq<char>, at: int) -> bool {
    0 <= at < text.len() && text[at] > '\x7f' && raw_tag_before(text, at)
}

/// The texts that the parser is given: behind every backslash stands a
/// letter or a digit, no declaration of HTML opens, and behind `<pre`,
/// `<script` and `<style` stands no character outside ASCII.
pub open spec fn readable(text: Seq<char>) -> bool {
    &&& forall|i: int| !bare_backslash_at(text, i)
    &&& forall|i: int| !declaration_at(text, i)
    &&& forall|i: int| !wide_behind_tag_at(text, i)
}

/// `text` as the parser gets it: after an opening paragraph, which the
/// grammar of sections wants and a text block may lack, and closed by a line
/// feed.
pub open spec fn framed(text: Seq<char>) -> Seq<char> {
    "Summary.\n\n"@ + text + "\n"@
}

/// The sections of a text block, or nothing where it has none to show.
pub open spec fn sections_of(text: Seq<char>) -> Option<Seq<SectionModel>> {
    if readable(text) {
        docblock(framed(text))
    } else {
        None
    }
}

/// What `docstrings::parse_md_docblock` makes of a text: the sections of its
/// result, in the model of this library, or nothing where it reports an
/// error. Nothing more is said of it than that it depends on the text alone.
pub uninterp spec fn docblock(text: Seq<char>) -> Option<Seq<SectionModel>>;

/// The error of the `docstrings` crate. Nothing is said of it: it is told
/// from success and read no further.
#[verifier::external_type_specification]
#[verifier::external_body]
pub struct ExParseError(docstrings::ParseError);

/// The model of what a parser hands back: the sections, or nothing with an
/// error.
pub open spec fn outcome<E>(parsed: Result<Vec<DocSection>, E>) -> Option<Seq<SectionModel>> {
    match parsed {
        Ok(sections) => Some(sections.deep_view()),
        Err(_) => None,
    }
}

/// Calls `docstrings::parse_md_docblock` and keeps the sections of its
/// result, each moved into a [`DocSection`]. The contract claims that
/// success and the sections depend on the text alone.
///
/// The parser is not given every text. The reader of Markdown beneath it
/// skips the byte behind a backslash in the target of a link, and so reads
/// past the end of what it was given where the backslash stands last: at the
/// end of the text, of a heading, of emphasis or of the text of a link. None
/// of these ends before a letter or a digit. It reads past the end in a code
/// fence where the last line has no line feed. It takes one byte behind `<pre`,
/// `<script` and `<style`, where a character of more bytes may stand. And it
/// does not come back from a declaration of HTML, which opens with `<!` and a
/// capital letter, where the text does not close it.
#[verifier::external_body]
fn parse_md_docblock(text: &str) -> (parsed: Result<Vec<DocSection>, docstrings::ParseError>)
    requires
        readable(text@),
        text@.len() > 0,
        text@.last() == '\n',
    ensures
        outcome(parsed) == docblock(text@),
{
    match docstrings::parse_md_docblock(text) {
        Ok(block) => Ok(block.sections.into_iter().map(|section| match section {
            docstrings::DocSection::Parameters(list) => DocSection::Parameters(list),
            docstrings::DocSection::TypeParameters(list) => DocSection::TypeParameters(list),
            docstrings::DocSection::LifetimeParameters(list) => DocSection::LifetimeParameters(list),
            docstrings::DocSection::Returns(text, list) => DocSection::Returns(text, list),
            docstrings::DocSection::Custom(heading, text) => DocSection::Prose(heading, text),
        }).collect()),
        Err(error) => Err(error),
    }
}

/// Whether one of `<pre`, `<script` and `<style` ends in `chars` right
/// before `at`.
fn is_raw_tag_before(chars: &Vec<char>, at: usize) -> (yes: bool)
    requires
        at <= chars.len(),
    ensures
        yes == raw_tag_before(chars@, at as int),
{
    if at >= 4 && chars[at - 4] == '<' && chars[at - 3] == 'p' && chars[at - 2] == 'r' && chars[at
        - 1] == 'e' {
        return true;
    }
    if at >= 6 && chars[at - 6] == '<' && chars[at - 5] == 's' && chars[at - 4] == 't' && chars[at
        - 3] == 'y' && chars[at - 2] == 'l' && chars[at - 1] == 'e' {
        return true;
    }
    at >= 7 && chars[at - 7] == '<' && chars[at - 6] == 's' && chars[at - 5] == 'c' && chars[at
        - 4] == 'r' && chars[at - 3] == 'i' && chars[at - 2] == 'p' && chars[at - 1] == 't'
}

/// Whether `c` is a letter or a digit of ASCII.
fn is_letter_or_digit(c: char) -> (yes: bool)
    ensures
        yes == letter_or_digit(c),
{
    ('0' <= c && c <= '9') || ('a' <= c && c <= 'z') || ('A' <= c && c <= 'Z')
}

/// Whether the parser is given `text`.
pub fn is_readable(text: &str) -> (yes: bool)
    ensures
        yes == readable(text@),
{
    let chars = to_chars(text);
    let mut i: usize = 0;
    while i < chars.len()
        invariant
            i <= chars.len(),
            chars@ == text@,
            forall|k: int| k < i ==> !bare_backslash_at(text@, k),
            forall|k: int| k + 2 < i ==> !declaration_at(text@, k),
            forall|k: int| k < i ==> !wide_behind_tag_at(text@, k),
        decreases chars.len() - i,
    {
        let c = chars[i];
        if c == '\\' && !(i + 1 < chars.len() && is_letter_or_digit(chars[i + 1])) {
            assert(bare_backslash_at(text@, i as int));
            return false;
        }
        if 'A' <= c && c <= 'Z' && i >= 2 && chars[i - 1] == '!' && chars[i - 2] == '<' {
            assert(declaration_at(text@, i - 2));
            return false;
        }
        if c > '\x7f' && is_raw_tag_before(&chars, i) {
            assert(wide_behind_tag_at(text@, i as int));
            return false;
        }
        i += 1;
    }
    true
}

/// The sections of a text block.
pub fn parse_docblock(text: &str) -> (parsed: Result<Vec<DocSection>, StructuredDocParseError>)
    ensures
        outcome(parsed) == sections_of(text@),
        (parsed matches Err(error) && error == StructuredDocParseError::Unsupported) <==> !readable(
            text@,
        ),
        (parsed matches Err(error) && error == StructuredDocParseError::Malformed) <==> readable(
            text@,
        ) && docblock(framed(text@)) is None,
{
    if !is_readable(text) {
        return Err(StructuredDocParseError::Unsupported);
    }
    let mut whole = String::from_str("Summary.\n\n");
    whole.append(text);
    whole.append("\n");
    proof {
        reveal_strlit("Summary.\n\n");
        reveal_strlit("\n");
        assert forall|i: int| !bare_backslash_at(whole@, i) by {
            if 10 <= i < 10 + text@.len() {
                assert(!bare_backslash_at(text@, i - 10));
            }
        }
        assert forall|i: int| !declaration_at(whole@, i) by {
            if 10 <= i && i + 2 < 10 + text@.len() {
                assert(!declaration_at(text@, i - 10));
            }
        }
        assert forall|i: int| !wide_behind_tag_at(whole@, i) by {
            if 10 <= i < 10 + text@.len() {
                assert(!wide_behind_tag_at(text@, i - 10));
            }
        }
    }
    match parse_md_docblock(whole.as_str()) {
        Ok(sections) => Ok(sections),
        Err(_) => Err(StructuredDocParseError::Malformed),
    }
}

} // verus!
