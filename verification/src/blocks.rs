//! The block and inline structure of a text block.

use vstd::prelude::*;
use crate::helpers::to_chars;

verus! {

/// An inline element of a heading or a paragraph.
#[derive(Debug, PartialEq, Eq)]
pub enum InlineSpan {
    Break,
    Text(String),
    Code(String),
    Link(String, String, Option<String>),
    Image(String, String, Option<String>),
    Emphasis(Vec<InlineSpan>),
    Strong(Vec<InlineSpan>),
}

/// The mathematical model of an [`InlineSpan`].
pub enum SpanModel {
    Break,
    Text(Seq<char>),
    Code(Seq<char>),
    Link(Seq<char>, Seq<char>, Option<Seq<char>>),
    Image(Seq<char>, Seq<char>, Option<Seq<char>>),
    Emphasis(Seq<SpanModel>),
    Strong(Seq<SpanModel>),
}

/// The model of one span.
pub open spec fn span_model(span: InlineSpan) -> SpanModel
    decreases span,
{
    match span {
        InlineSpan::Break => SpanModel::Break,
        InlineSpan::Text(text) => SpanModel::Text(text@),
        InlineSpan::Code(code) => SpanModel::Code(code@),
        InlineSpan::Link(text, url, title) => SpanModel::Link(text@, url@, title.deep_view()),
        InlineSpan::Image(text, url, title) => SpanModel::Image(text@, url@, title.deep_view()),
        InlineSpan::Emphasis(children) => SpanModel::Emphasis(spans_model(children@)),
        InlineSpan::Strong(children) => SpanModel::Strong(spans_model(children@)),
    }
}

/// The models of a row of spans.
pub open spec fn spans_model(spans: Seq<InlineSpan>) -> Seq<SpanModel>
    decreases spans,
{
    if spans.len() == 0 {
        Seq::empty()
    } else {
        spans_model(spans.drop_last()).push(span_model(spans.last()))
    }
}

impl View for InlineSpan {
    type V = SpanModel;

    open spec fn view(&self) -> SpanModel {
        span_model(*self)
    }
}

/// A block of a text block. Only headings and paragraphs hold prose; of the
/// other blocks the kind alone is kept.
#[derive(Debug, PartialEq, Eq)]
pub enum MarkdownBlock {
    Header(Vec<InlineSpan>, usize),
    Paragraph(Vec<InlineSpan>),
    Blockquote,
    CodeBlock,
    OrderedList,
    UnorderedList,
    Raw,
    Hr,
}

/// The mathematical model of a [`MarkdownBlock`].
pub enum BlockModel {
    Header(Seq<SpanModel>, nat),
    Paragraph(Seq<SpanModel>),
    Blockquote,
    CodeBlock,
    OrderedList,
    UnorderedList,
    Raw,
    Hr,
}

impl View for MarkdownBlock {
    type V = BlockModel;

    open spec fn view(&self) -> BlockModel {
        match self {
            MarkdownBlock::Header(spans, level) => BlockModel::Header(
                spans_model(spans@),
                *level as nat,
            ),
            MarkdownBlock::Paragraph(spans) => BlockModel::Paragraph(spans_model(spans@)),
            MarkdownBlock::Blockquote => BlockModel::Blockquote,
            MarkdownBlock::CodeBlock => BlockModel::CodeBlock,
            MarkdownBlock::OrderedList => BlockModel::OrderedList,
            MarkdownBlock::UnorderedList => BlockModel::UnorderedList,
            MarkdownBlock::Raw => BlockModel::Raw,
            MarkdownBlock::Hr => BlockModel::Hr,
        }
    }
}

impl DeepView for MarkdownBlock {
    type V = BlockModel;

    open spec fn deep_view(&self) -> BlockModel {
        self@
    }
}

/// The inline element of the `markdown` crate. Nothing is said of it: it is
/// moved into an [`InlineSpan`] at once.
#[verifier::external_type_specification]
#[verifier::external_body]
pub struct ExSpan(markdown::Span);

/// The block of the `markdown` crate. Nothing is said of it: it is moved
/// into a [`MarkdownBlock`] at once.
#[verifier::external_type_specification]
#[verifier::external_body]
pub struct ExBlock(markdown::Block);

/// What `markdown::tokenize` makes of a text: its blocks, in the model of
/// this library. Nothing more is said of it than that it depends on the text
/// alone.
pub uninterp spec fn tokenized(text: Seq<char>) -> Seq<BlockModel>;

/// Moves one span of the `markdown` crate into an [`InlineSpan`], variant by
/// variant.
#[verifier::external_body]
fn span_from(span: markdown::Span) -> InlineSpan {
    match span {
        markdown::Span::Break => InlineSpan::Break,
        markdown::Span::Text(text) => InlineSpan::Text(text),
        markdown::Span::Code(code) => InlineSpan::Code(code),
        markdown::Span::Link(text, url, title) => InlineSpan::Link(text, url, title),
        markdown::Span::Image(text, url, title) => InlineSpan::Image(text, url, title),
        markdown::Span::Emphasis(spans) => InlineSpan::Emphasis(spans.into_iter().map(span_from).collect()),
        markdown::Span::Strong(spans) => InlineSpan::Strong(spans.into_iter().map(span_from).collect()),
    }
}

/// Moves one block of the `markdown` crate into a [`MarkdownBlock`], variant
/// by variant.
#[verifier::external_body]
fn block_from(block: markdown::Block) -> MarkdownBlock {
    match block {
        markdown::Block::Header(spans, level) => MarkdownBlock::Header(spans.into_iter().map(span_from).collect(), level),
        markdown::Block::Paragraph(spans) => MarkdownBlock::Paragraph(spans.into_iter().map(span_from).collect()),
        markdown::Block::Blockquote(_) => MarkdownBlock::Blockquote,
        markdown::Block::CodeBlock(_, _) => MarkdownBlock::CodeBlock,
        markdown::Block::OrderedList(_, _) => MarkdownBlock::OrderedList,
        markdown::Block::UnorderedList(_) => MarkdownBlock::UnorderedList,
        markdown::Block::Raw(_) => MarkdownBlock::Raw,
        markdown::Block::Hr => MarkdownBlock::Hr,
    }
}

/// The characters that can end the marker of a list item.
pub open spec fn ends_marker(c: char) -> bool {
    c == '-' || c == '+' || c == '*' || c == '.' || ('0' <= c && c <= '9')
}

/// The characters that the marker of a block can hold: those of a quote, of
/// a list item and of the indentation before them.
pub open spec fn nests(c: char) -> bool {
    c == ' ' || c == '>' || ends_marker(c) || c == 'a' || c == 'A' || c == 'i' || c == 'I'
}

/// Whether the line of `text` that holds position `at` is made of such
/// characters up to `at`.
pub open spec fn in_markers(text: Seq<char>, at: int) -> bool
    decreases at,
{
    &&& 0 <= at < text.len()
    &&& nests(text[at])
    &&& (at == 0 || text[at - 1] == '\n' || in_markers(text, at - 1))
}

/// Whether a list item of `text` can be empty: the marker that ends at `at`
/// stands among the markers at the head of its line, and the line ends right
/// after the space that follows it. Elsewhere in a line no list opens, and a
/// sentence that ends in a full stop and a blank is prose.
pub open spec fn empty_item_at(text: Seq<char>, at: int) -> bool {
    &&& in_markers(text, at)
    &&& at + 1 < text.len()
    &&& ends_marker(text[at])
    &&& text[at + 1] == ' '
    &&& (at + 2 == text.len() || text[at + 2] == '\n' || text[at + 2] == '\r')
}

/// Whether a block can open with the character at `at`: a `>`, or the space
/// behind the marker of a list item, among the markers at the head of a line.
pub open spec fn opens_block(text: Seq<char>, at: int) -> bool {
    &&& in_markers(text, at)
    &&& (text[at] == '>' || (text[at] == ' ' && at > 0 && ends_marker(text[at - 1])))
}

/// Whether the quotes and lists of `text` that are open have ended before
/// `at`: a line begins at `at`, behind an empty line, with a character that
/// no marker holds.
pub open spec fn parts_at(text: Seq<char>, at: int) -> bool {
    &&& 2 <= at < text.len()
    &&& text[at - 1] == '\n'
    &&& text[at - 2] == '\n'
    &&& !nests(text[at])
    &&& text[at] != '\n'
    &&& text[at] != '\r'
}

/// How many of the first `upto` characters of `text` can open a block,
/// counted from the last place before `upto` where the open quotes and lists
/// have ended. No block that holds the character before `upto` lies deeper
/// in other blocks than this.
pub open spec fn openings(text: Seq<char>, upto: int) -> nat
    decreases upto,
{
    if upto <= 0 {
        0
    } else {
        let before = if parts_at(text, upto - 1) {
            0nat
        } else {
            openings(text, upto - 1)
        };
        before + if opens_block(text, upto - 1) {
            1nat
        } else {
            0nat
        }
    }
}

/// The most block openings that may follow one another in a text.
pub const NESTING_LIMIT: usize = 128;

/// Whether a code fence, three backticks, stands in `text` at `at`.
pub open spec fn fence_at(text: Seq<char>, at: int) -> bool {
    &&& 0 <= at
    &&& at + 2 < text.len()
    &&& text[at] == '`'
    &&& text[at + 1] == '`'
    &&& text[at + 2] == '`'
}

/// Whether a character outside ASCII stands in `text` at `at`.
pub open spec fn wide_at(text: Seq<char>, at: int) -> bool {
    0 <= at < text.len() && text[at] > '\x7f'
}

/// Whether no line ends in `text` from `from` up to `to`.
pub open spec fn on_one_line(text: Seq<char>, from: int, to: int) -> bool {
    forall|k: int| from <= k < to ==> #[trigger] text[k] != '\n'
}

/// Whether a code fence at `fence` and a character outside ASCII at `wide`
/// stand on one line of `text`.
pub open spec fn wide_fence(text: Seq<char>, fence: int, wide: int) -> bool {
    &&& fence_at(text, fence)
    &&& wide_at(text, wide)
    &&& if wide < fence {
        on_one_line(text, wide, fence)
    } else {
        on_one_line(text, fence, wide)
    }
}

/// The texts that the tokenizer is given: a line with a code fence is of
/// ASCII, no list item can be empty, and the blocks cannot lie deeper than
/// the limit.
pub open spec fn tokenizable(text: Seq<char>) -> bool {
    &&& forall|i: int, j: int| !wide_fence(text, i, j)
    &&& forall|i: int| !empty_item_at(text, i)
    &&& forall|upto: int| 0 <= upto <= text.len() ==> #[trigger] openings(text, upto) <= NESTING_LIMIT
}

/// The blocks of a text block. A text that the tokenizer is not given is one
/// raw block.
pub open spec fn blocks_of(text: Seq<char>) -> Seq<BlockModel> {
    if tokenizable(text) {
        tokenized(text)
    } else {
        seq![BlockModel::Raw]
    }
}

/// Calls `markdown::tokenize` and moves the blocks into those of this
/// library. The contract claims that the blocks depend on the text alone.
///
/// The tokenizer is not given every text. It cuts a line that holds a code
/// fence behind its third byte, where a character of more than one byte may
/// not have ended. It takes the first block of every list item, and an item
/// with nothing behind its marker has none; the marker of an item stands at
/// the head of its line, behind the markers of what the item lies in. And it
/// calls itself for the inside of every quote and every list item, which
/// costs stack. A quote takes a `>` from the head of its line and a list item
/// the space behind its marker, and a quote or list at the top of the text
/// ends at an empty line where the line behind it begins with neither a
/// blank nor a marker, so that [`openings`] bounds the depth.
#[verifier::external_body]
fn tokenize_text(text: &str) -> (blocks: Vec<MarkdownBlock>)
    requires
        tokenizable(text@),
    ensures
        blocks.deep_view() == tokenized(text@),
{
    markdown::tokenize(text).into_iter().map(block_from).collect()
}

/// Whether the tokenizer is given `text`.
pub fn is_tokenizable(text: &str) -> (yes: bool)
    ensures
        yes == tokenizable(text@),
{
    let chars = to_chars(text);
    let mut count: usize = 0;
    let mut markers = true;
    let mut fence = false;
    let mut wide = false;
    let ghost mut start: int = 0;
    let mut i: usize = 0;
    while i < chars.len()
        invariant
            i <= chars.len(),
            chars@ == text@,
            0 <= start <= i,
            start == 0 || text@[start - 1] == '\n',
            on_one_line(text@, start, i as int),
            fence == (exists|k: int| start <= k && k + 2 < i && fence_at(text@, k)),
            wide == (exists|k: int| start <= k < i && wide_at(text@, k)),
            !(fence && wide),
            forall|a: int, b: int| a + 2 < i && b < i ==> !wide_fence(text@, a, b),
            forall|k: int| k < i ==> !empty_item_at(text@, k),
            count == openings(text@, i as int),
            forall|upto: int| 0 <= upto <= i ==> #[trigger] openings(text@, upto) <= NESTING_LIMIT,
            markers == (i == 0 || text@[i - 1] == '\n' || in_markers(text@, i - 1)),
        decreases chars.len() - i,
    {
        let c = chars[i];
        let ghost had_fence = fence;
        let ghost had_wide = wide;
        if c > '\x7f' {
            assert(wide_at(text@, i as int));
            wide = true;
        }
        if c == '`' && i >= 2 && chars[i - 1] == '`' && chars[i - 2] == '`' {
            assert(fence_at(text@, i - 2));
            assert(start <= i - 2);
            fence = true;
        }
        if fence && wide {
            proof {
                if c > '\x7f' {
                    let k = choose|k: int| start <= k && k + 2 < i && fence_at(text@, k);
                    assert(wide_fence(text@, k, i as int));
                } else {
                    let k = choose|k: int| start <= k < i && wide_at(text@, k);
                    assert(wide_fence(text@, i - 2, k));
                }
            }
            return false;
        }
        proof {
            assert forall|a: int, b: int| a + 2 < i + 1 && b < i + 1 implies !wide_fence(
                text@,
                a,
                b,
            ) by {
                if wide_fence(text@, a, b) {
                    if b == i {
                        assert(!had_fence);
                        assert(a < start);
                        assert(text@[start - 1] == '\n');
                    } else if a + 2 == i {
                        assert(!had_wide);
                        assert(b < start);
                        assert(text@[start - 1] == '\n');
                    }
                }
            }
        }
        let marker = ends_marker_char(c);
        let nesting = c == ' ' || c == '>' || marker || c == 'a' || c == 'A' || c == 'i' || c
            == 'I';
        markers = markers && nesting;
        assert(markers == in_markers(text@, i as int));
        if markers && marker && i + 1 < chars.len() && chars[i + 1] == ' ' {
            if i + 2 == chars.len() || chars[i + 2] == '\n' || chars[i + 2] == '\r' {
                assert(empty_item_at(text@, i as int));
                return false;
            }
        }
        if !nesting && c != '\n' && c != '\r' && i >= 2 && chars[i - 1] == '\n' && chars[i - 2]
            == '\n' {
            assert(parts_at(text@, i as int));
            count = 0;
        }
        let after_marker = i > 0 && ends_marker_char(chars[i - 1]);
        if markers && (c == '>' || (c == ' ' && after_marker)) {
            assert(opens_block(text@, i as int));
            if count == NESTING_LIMIT {
                assert(openings(text@, i + 1) > NESTING_LIMIT);
                return false;
            }
            count += 1;
        }
        assert(count == openings(text@, i + 1));
        if c == '\n' {
            markers = true;
            fence = false;
            wide = false;
            proof {
                start = i + 1;
            }
        }
        i += 1;
    }
    true
}

/// Whether `c` can end the marker of a list item.
fn ends_marker_char(c: char) -> (yes: bool)
    ensures
        yes == ends_marker(c),
{
    c == '-' || c == '+' || c == '*' || c == '.' || ('0' <= c && c <= '9')
}

/// The blocks of a text block.
pub fn tokenize(text: &str) -> (blocks: Vec<MarkdownBlock>)
    ensures
        blocks.deep_view() == blocks_of(text@),
{
    if is_tokenizable(text) {
        tokenize_text(text)
    } else {
        let mut blocks: Vec<MarkdownBlock> = Vec::new();
        blocks.push(MarkdownBlock::Raw);
        blocks
    }
}

} // verus!
