//! The walk through the blocks of a text block that yields its prose.

use vstd::prelude::*;
use crate::blocks::{spans_model, span_model, BlockModel, InlineSpan, MarkdownBlock, SpanModel};

verus! {

/// The prose of one span, in reading order: the text of a text span, the
/// prose inside emphasis and strong emphasis, and nothing of a break, of code,
/// of a link or of an image.
pub open spec fn span_runs(span: SpanModel) -> Seq<Seq<char>>
    decreases span,
{
    match span {
        SpanModel::Text(text) => seq![text],
        SpanModel::Emphasis(children) => spans_runs(children),
        SpanModel::Strong(children) => spans_runs(children),
        _ => Seq::empty(),
    }
}

/// The prose of a row of spans, in reading order.
pub open spec fn spans_runs(spans: Seq<SpanModel>) -> Seq<Seq<char>>
    decreases spans,
{
    if spans.len() == 0 {
        Seq::empty()
    } else {
        span_runs(spans[0]) + spans_runs(spans.skip(1))
    }
}

/// The prose of one block: that of a heading or a paragraph. The other
/// blocks have none.
pub open spec fn block_runs(block: BlockModel) -> Seq<Seq<char>> {
    match block {
        BlockModel::Header(spans, _) => spans_runs(spans),
        BlockModel::Paragraph(spans) => spans_runs(spans),
        _ => Seq::empty(),
    }
}

/// The prose of a document, block after block.
pub open spec fn document_runs(blocks: Seq<BlockModel>) -> Seq<Seq<char>>
    decreases blocks.len(),
{
    if blocks.len() == 0 {
        Seq::empty()
    } else {
        document_runs(blocks.drop_last()) + block_runs(blocks.last())
    }
}

/// The model of a row has the models of its spans, one for one.
pub proof fn lemma_spans_model(spans: Seq<InlineSpan>)
    ensures
        spans_model(spans).len() == spans.len(),
        forall|i: int|
            0 <= i < spans.len() ==> (#[trigger] spans_model(spans)[i]) == span_model(spans[i]),
    decreases spans.len(),
{
    if spans.len() > 0 {
        lemma_spans_model(spans.drop_last());
    }
}

/// What is left to read of a row from position `from` on.
spec fn row_rest(row: &Vec<InlineSpan>, from: usize) -> Seq<Seq<char>> {
    spans_runs(spans_model(row@).skip(from as int))
}

/// What is left to read of the rows that wait, the last one first.
spec fn waiting_runs(waiting: Seq<(&Vec<InlineSpan>, usize)>) -> Seq<Seq<char>>
    decreases waiting.len(),
{
    if waiting.len() == 0 {
        Seq::empty()
    } else {
        row_rest(waiting.last().0, waiting.last().1) + waiting_runs(waiting.drop_last())
    }
}

/// The size of a span: it bounds the steps that reading it takes.
spec fn span_size(span: InlineSpan) -> nat
    decreases span,
{
    match span {
        InlineSpan::Emphasis(children) => 2 + row_size(children@),
        InlineSpan::Strong(children) => 2 + row_size(children@),
        _ => 1,
    }
}

/// The size of a row of spans.
spec fn row_size(row: Seq<InlineSpan>) -> nat
    decreases row,
{
    if row.len() == 0 {
        0
    } else {
        span_size(row[0]) + row_size(row.skip(1))
    }
}

/// The steps that the rows that wait still take.
spec fn waiting_size(waiting: Seq<(&Vec<InlineSpan>, usize)>) -> nat
    decreases waiting.len(),
{
    if waiting.len() == 0 {
        0
    } else {
        1 + row_size(waiting.last().0@.skip(waiting.last().1 as int)) + waiting_size(
            waiting.drop_last(),
        )
    }
}

/// What one more waiting row adds.
proof fn lemma_waiting_push(below: Seq<(&Vec<InlineSpan>, usize)>, row: &Vec<InlineSpan>, at: usize)
    ensures
        waiting_runs(below.push((row, at))) == row_rest(row, at) + waiting_runs(below),
        waiting_size(below.push((row, at))) == 1 + row_size(row@.skip(at as int)) + waiting_size(
            below,
        ),
{
    assert(below.push((row, at)).drop_last() =~= below);
}

/// What the span at `at` adds to the rest of its row.
proof fn lemma_row_step(row: &Vec<InlineSpan>, at: usize)
    requires
        at < row.len(),
    ensures
        row_rest(row, at) == span_runs(span_model(row[at as int])) + row_rest(
            row,
            (at + 1) as usize,
        ),
        row_size(row@.skip(at as int)) == span_size(row[at as int]) + row_size(
            row@.skip(at + 1),
        ),
{
    lemma_spans_model(row@);
    assert(row@.skip(at as int).skip(1) =~= row@.skip(at + 1));
    assert(spans_model(row@).skip(at as int).skip(1) =~= spans_model(row@).skip(at + 1));
}

/// A row read to its end has nothing left.
proof fn lemma_row_done(row: &Vec<InlineSpan>)
    ensures
        row_rest(row, row.len()) == Seq::<Seq<char>>::empty(),
        row_size(row@.skip(row.len() as int)) == 0,
{
    lemma_spans_model(row@);
}

/// A row that has not been read has all of it left.
proof fn lemma_row_start(row: &Vec<InlineSpan>)
    ensures
        row_rest(row, 0) == spans_runs(spans_model(row@)),
        row@.skip(0) == row@,
{
    assert(spans_model(row@).skip(0) =~= spans_model(row@));
}

/// Appends the prose of a row of spans to `runs`, in reading order. The rows
/// inside emphasis wait on a list of their own, so that deep nesting takes no
/// stack.
pub fn traverse_spans(spans: &Vec<InlineSpan>, runs: &mut Vec<String>)
    ensures
        final(runs).deep_view() == old(runs).deep_view() + spans_runs(spans_model(spans@)),
{
    let mut waiting: Vec<(&Vec<InlineSpan>, usize)> = Vec::new();
    waiting.push((spans, 0));
    proof {
        lemma_waiting_push(Seq::empty(), spans, 0);
        lemma_row_start(spans);
    }
    while waiting.len() > 0
        invariant
            forall|k: int|
                0 <= k < waiting.len() ==> (#[trigger] waiting[k]).1 <= waiting[k].0.len(),
            runs.deep_view() + waiting_runs(waiting@) == old(runs).deep_view() + spans_runs(
                spans_model(spans@),
            ),
        decreases waiting_size(waiting@),
    {
        let ghost before = waiting@;
        let ghost read = runs.deep_view();
        let (row, at) = waiting.pop().unwrap();
        let ghost below = waiting@;
        proof {
            lemma_waiting_push(below, row, at);
        }
        if at < row.len() {
            proof {
                lemma_row_step(row, at);
                lemma_waiting_push(below, row, (at + 1) as usize);
            }
            waiting.push((row, at + 1));
            let ghost stepped = waiting@;
            match &row[at] {
                InlineSpan::Text(text) => {
                    runs.push(text.clone());
                    assert(runs.deep_view() + waiting_runs(stepped) =~= read + waiting_runs(
                        before,
                    ));
                },
                InlineSpan::Emphasis(children) => {
                    waiting.push((children, 0));
                    proof {
                        lemma_waiting_push(stepped, children, 0);
                        lemma_row_start(children);
                    }
                },
                InlineSpan::Strong(children) => {
                    waiting.push((children, 0));
                    proof {
                        lemma_waiting_push(stepped, children, 0);
                        lemma_row_start(children);
                    }
                },
                _ => {},
            }
        } else {
            proof {
                lemma_row_done(row);
            }
        }
    }
}

/// Appends the prose of one span to `runs`.
pub fn traverse_markdown_span(span: &InlineSpan, runs: &mut Vec<String>)
    ensures
        final(runs).deep_view() == old(runs).deep_view() + span_runs(span@),
{
    match span {
        InlineSpan::Text(text) => {
            runs.push(text.clone());
        },
        InlineSpan::Emphasis(children) => traverse_spans(children, runs),
        InlineSpan::Strong(children) => traverse_spans(children, runs),
        _ => {},
    }
}

/// Appends the prose of one block to `runs`.
pub fn traverse_markdown_block(block: &MarkdownBlock, runs: &mut Vec<String>)
    ensures
        final(runs).deep_view() == old(runs).deep_view() + block_runs(block@),
{
    match block {
        MarkdownBlock::Header(spans, _) => traverse_spans(spans, runs),
        MarkdownBlock::Paragraph(spans) => traverse_spans(spans, runs),
        _ => {},
    }
}

/// The prose of a document, in reading order.
pub fn prose_runs(blocks: &Vec<MarkdownBlock>) -> (runs: Vec<String>)
    ensures
        runs.deep_view() == document_runs(blocks.deep_view()),
{
    let mut runs: Vec<String> = Vec::new();
    let mut i: usize = 0;
    while i < blocks.len()
        invariant
            i <= blocks.len(),
            runs.deep_view() == document_runs(blocks.deep_view().take(i as int)),
        decreases blocks.len() - i,
    {
        assert(blocks.deep_view().take(i + 1).drop_last() =~= blocks.deep_view().take(i as int));
        traverse_markdown_block(&blocks[i], &mut runs);
        i += 1;
    }
    assert(blocks.deep_view().take(blocks.len() as int) =~= blocks.deep_view());
    runs
}

} // verus!
