//! The spelling check.

use vstd::prelude::*;
use vstd::string::StringExecFns;
use crate::helpers::{contains_name, text_block, to_text_block};
use crate::host::{
    AttributeModel, AttributeValue, AttributeValueModel, Crate, Diagnostic, DiagnosticModel,
    HostContext, Item, RawAttribute, SourceSpan,
};
use crate::blocks::{blocks_of, tokenizable, tokenize};
use crate::walker::{document_runs, prose_runs};

verus! {

/// A word that the dictionary does not know.
#[derive(Clone, Debug, PartialEq, Eq)]
pub struct Misspelling {
    pub misspelled: String,
    /// Where the word stands in the text that was checked.
    pub position: usize,
    /// What the dictionary offers in its place, the best first.
    pub suggestions: Vec<String>,
}

/// The mathematical model of a [`Misspelling`].
pub struct MisspellingModel {
    pub misspelled: Seq<char>,
    pub position: nat,
    pub suggestions: Seq<Seq<char>>,
}

impl View for Misspelling {
    type V = MisspellingModel;

    open spec fn view(&self) -> MisspellingModel {
        MisspellingModel {
            misspelled: self.misspelled@,
            position: self.position as nat,
            suggestions: self.suggestions.deep_view(),
        }
    }
}

impl DeepView for Misspelling {
    type V = MisspellingModel;

    open spec fn deep_view(&self) -> MisspellingModel {
        self@
    }
}

/// What the dictionary says of one run of prose.
#[derive(Clone, Debug, PartialEq, Eq)]
pub enum DictionaryReply {
    /// The words of the run that it does not know, in order.
    Checked(Vec<Misspelling>),
    /// The dictionary did not answer.
    Failed,
}

/// The mathematical model of a [`DictionaryReply`].
pub enum ReplyModel {
    Checked(Seq<MisspellingModel>),
    Failed,
}

impl View for DictionaryReply {
    type V = ReplyModel;

    open spec fn view(&self) -> ReplyModel {
        match self {
            DictionaryReply::Checked(words) => ReplyModel::Checked(words.deep_view()),
            DictionaryReply::Failed => ReplyModel::Failed,
        }
    }
}

impl DeepView for DictionaryReply {
    type V = ReplyModel;

    open spec fn deep_view(&self) -> ReplyModel {
        self@
    }
}

/// What is said of a misspelled word.
pub open spec fn spelling_message(word: Seq<char>, suggestion: Seq<char>) -> Seq<char> {
    "'"@ + word + "' is misspelled. Maybe you meant '"@ + suggestion + "'"@
}

/// The diagnostics for the words of one run: one for each word that comes
/// with a suggestion, naming the word and the first suggestion, in the order
/// of the words. A word without a suggestion gives none.
pub open spec fn word_diagnostics(span: SourceSpan, words: Seq<MisspellingModel>) -> Seq<
    DiagnosticModel,
>
    decreases words.len(),
{
    if words.len() == 0 {
        Seq::empty()
    } else {
        let before = word_diagnostics(span, words.drop_last());
        let word = words.last();
        if word.suggestions.len() > 0 {
            before.push(
                DiagnosticModel {
                    span: span,
                    message: spelling_message(word.misspelled, word.suggestions[0]),
                },
            )
        } else {
            before
        }
    }
}

/// The diagnostics for one run of prose. A run that the dictionary did not
/// answer for gives none.
pub open spec fn reply_diagnostics(span: SourceSpan, reply: ReplyModel) -> Seq<DiagnosticModel> {
    match reply {
        ReplyModel::Checked(words) => word_diagnostics(span, words),
        ReplyModel::Failed => Seq::empty(),
    }
}

/// The diagnostics for the first `count` runs of prose, of which `replies`
/// holds the dictionary's replies in order. A run without a reply gives
/// none, and so does a reply without a run.
pub open spec fn run_diagnostics(span: SourceSpan, count: nat, replies: Seq<ReplyModel>) -> Seq<
    DiagnosticModel,
>
    decreases count,
{
    if count == 0 {
        Seq::empty()
    } else {
        let before = run_diagnostics(span, (count - 1) as nat, replies);
        if count <= replies.len() {
            before + reply_diagnostics(span, replies[count - 1])
        } else {
            before
        }
    }
}

/// A word without a suggestion is passed over; a word with suggestions gives
/// exactly one diagnostic, which names the word and the first suggestion.
pub proof fn lemma_one_word(span: SourceSpan, word: MisspellingModel)
    ensures
        word.suggestions.len() == 0 ==> word_diagnostics(span, seq![word]).len() == 0,
        word.suggestions.len() > 0 ==> word_diagnostics(span, seq![word]) == seq![
            (DiagnosticModel {
                span: span,
                message: spelling_message(word.misspelled, word.suggestions[0]),
            }),
        ],
{
    assert(word_diagnostics(span, seq![word].drop_last()) =~= Seq::empty());
    if word.suggestions.len() > 0 {
        assert(word_diagnostics(span, seq![word]) =~= seq![
            (DiagnosticModel {
                span: span,
                message: spelling_message(word.misspelled, word.suggestions[0]),
            }),
        ]);
    }
}

/// The words of a run are judged one by one, in order: the diagnostics for
/// two rows of words on end are those for the first row, then those for the
/// second.
pub proof fn lemma_words_in_order(
    span: SourceSpan,
    first: Seq<MisspellingModel>,
    second: Seq<MisspellingModel>,
)
    ensures
        word_diagnostics(span, first + second) == word_diagnostics(span, first) + word_diagnostics(
            span,
            second,
        ),
    decreases second.len(),
{
    if second.len() == 0 {
        assert(word_diagnostics(span, first) + word_diagnostics(span, second) =~= word_diagnostics(
            span,
            first,
        ));
    } else {
        lemma_words_in_order(span, first, second.drop_last());
        assert((first + second).drop_last() =~= first + second.drop_last());
        assert(word_diagnostics(span, first + second) =~= word_diagnostics(span, first)
            + word_diagnostics(span, second));
    }
}

/// There are as many diagnostics for a run as it has words with a
/// suggestion.
pub proof fn lemma_count_of_diagnostics(span: SourceSpan, words: Seq<MisspellingModel>)
    ensures
        word_diagnostics(span, words).len() == words.filter(
            |word: MisspellingModel| word.suggestions.len() > 0,
        ).len(),
    decreases words.len(),
{
    reveal(Seq::filter);
    if words.len() > 0 {
        lemma_count_of_diagnostics(span, words.drop_last());
    }
}

/// What the dictionary answers to each of `runs`, if it answers the same to
/// the same text.
pub open spec fn replies_from(
    dictionary: spec_fn(Seq<char>) -> ReplyModel,
    runs: Seq<Seq<char>>,
) -> Seq<ReplyModel> {
    Seq::new(runs.len(), |i: int| dictionary(runs[i]))
}

/// The spelling check. It keeps, for each scope of attributes that the host
/// has entered and not left, whether the scope is hidden from the
/// documentation, and whether hidden scopes are passed over.
pub struct SpellingError {
    doc_hidden_stack: Vec<bool>,
    skip_hidden: bool,
}

/// Whether `attr` is `#[doc(..)]` with `hidden` among its entries.
pub open spec fn marks_hidden(attr: AttributeModel) -> bool {
    &&& attr.name == "doc"@
    &&& attr.value matches AttributeValueModel::List(names)
    &&& names.contains("hidden"@)
}

/// Whether one of `attrs` hides its scope.
pub open spec fn any_marks_hidden(attrs: Seq<AttributeModel>) -> bool {
    exists|i: int| 0 <= i < attrs.len() && marks_hidden(#[trigger] attrs[i])
}

/// The scopes after the host has entered one with the attributes `attrs`:
/// the new scope is hidden if the one around it is, or if one of `attrs` says
/// so.
pub open spec fn entered(scopes: Seq<bool>, attrs: Seq<AttributeModel>) -> Seq<bool> {
    scopes.push(scopes.last() || any_marks_hidden(attrs))
}

/// The scopes after the host has left the innermost one.
pub open spec fn left(scopes: Seq<bool>) -> Seq<bool> {
    scopes.drop_last()
}

/// Leaving a scope undoes entering it, and what stands in a hidden scope is
/// hidden.
pub proof fn lemma_scopes_nest(scopes: Seq<bool>, attrs: Seq<AttributeModel>)
    requires
        scopes.len() > 0,
    ensures
        left(entered(scopes, attrs)) == scopes,
        scopes.last() ==> entered(scopes, attrs).last(),
{
}

/// Whether `attr` hides its scope.
fn hides(attr: &RawAttribute) -> (hidden: bool)
    ensures
        hidden == marks_hidden(attr@),
{
    if !(attr.name == String::from_str("doc")) {
        return false;
    }
    match &attr.value {
        AttributeValue::List(names) => contains_name(names, &String::from_str("hidden")),
        _ => false,
    }
}

impl SpellingError {
    #[verifier::type_invariant]
    spec fn well_formed(self) -> bool {
        self.doc_hidden_stack@.len() > 0
    }

    /// The scopes that are open, the outermost first: for each, whether it is
    /// hidden. The first entry stands for the whole program and is never
    /// removed.
    pub closed spec fn scopes(self) -> Seq<bool> {
        self.doc_hidden_stack@
    }

    /// Whether the check passes over what stands in a hidden scope.
    pub closed spec fn skips_hidden(self) -> bool {
        self.skip_hidden
    }

    /// A check outside every scope, with nothing hidden, that looks at hidden
    /// scopes like at any other.
    pub fn new() -> (checker: SpellingError)
        ensures
            checker.scopes() == seq![false],
            !checker.skips_hidden(),
    {
        SpellingError::with_policy(false)
    }

    /// A check outside every scope, with nothing hidden, that passes over
    /// hidden scopes if `skip_hidden` says so.
    pub fn with_policy(skip_hidden: bool) -> (checker: SpellingError)
        ensures
            checker.scopes() == seq![false],
            checker.skips_hidden() == skip_hidden,
    {
        let mut doc_hidden_stack: Vec<bool> = Vec::new();
        doc_hidden_stack.push(false);
        SpellingError { doc_hidden_stack, skip_hidden }
    }

    /// Moves the scopes out, to be changed and put back.
    fn take_scopes(&mut self) -> (scopes: Vec<bool>)
        ensures
            scopes@ == old(self).scopes(),
            final(self).skips_hidden() == old(self).skips_hidden(),
    {
        let mut taken = SpellingError::with_policy(self.skip_hidden);
        std::mem::swap(self, &mut taken);
        taken.doc_hidden_stack
    }

    /// How many scopes are open, the outermost among them.
    pub fn depth(&self) -> (depth: usize)
        ensures
            depth == self.scopes().len(),
            depth > 0,
    {
        proof {
            use_type_invariant(self);
        }
        self.doc_hidden_stack.len()
    }

    /// Whether the innermost open scope is hidden.
    pub fn doc_hidden(&self) -> (hidden: bool)
        ensures
            self.scopes().len() > 0,
            hidden == self.scopes().last(),
    {
        proof {
            use_type_invariant(self);
        }
        self.doc_hidden_stack[self.doc_hidden_stack.len() - 1]
    }

    /// The host enters a scope with the attributes `attrs`. The scope is
    /// hidden if the one around it is, or if one of `attrs` says so.
    pub fn enter_lint_attrs(&mut self, attrs: &[RawAttribute])
        ensures
            final(self).scopes() == entered(old(self).scopes(), attrs.deep_view()),
            final(self).skips_hidden() == old(self).skips_hidden(),
    {
        let mut doc_hidden = self.doc_hidden();
        let mut i: usize = 0;
        while i < attrs.len()
            invariant
                i <= attrs.len(),
                doc_hidden == (old(self).scopes().last() || exists|k: int|
                    0 <= k < i && marks_hidden(#[trigger] attrs.deep_view()[k])),
            decreases attrs.len() - i,
        {
            if hides(&attrs[i]) {
                assert(marks_hidden(attrs.deep_view()[i as int]));
                doc_hidden = true;
            }
            i += 1;
        }
        let skip_hidden = self.skip_hidden;
        let mut scopes = self.take_scopes();
        scopes.push(doc_hidden);
        *self = SpellingError { doc_hidden_stack: scopes, skip_hidden };
    }

    /// The host leaves the scope that it entered last.
    pub fn exit_lint_attrs(&mut self)
        requires
            old(self).scopes().len() > 1,
        ensures
            final(self).scopes() == left(old(self).scopes()),
            final(self).skips_hidden() == old(self).skips_hidden(),
    {
        let skip_hidden = self.skip_hidden;
        let mut scopes = self.take_scopes();
        scopes.pop();
        *self = SpellingError { doc_hidden_stack: scopes, skip_hidden };
    }

    /// Whether the check looks at a declaration: the host admits it, and it
    /// does not stand in a hidden scope that the check passes over.
    pub open spec fn looks_at(self, cx: HostContext, id: Option<u32>) -> bool {
        cx.admits(id) && !(self.skips_hidden() && self.scopes().last())
    }

    /// The runs of prose that are to be checked for a declaration: those of
    /// its text block, if the check looks at the declaration.
    pub open spec fn runs_to_check(
        self,
        cx: HostContext,
        id: Option<u32>,
        attrs: Seq<AttributeModel>,
    ) -> Seq<Seq<char>> {
        if self.looks_at(cx, id) {
            document_runs(blocks_of(text_block(attrs)))
        } else {
            Seq::empty()
        }
    }

    /// What the check reports of a declaration, given the dictionary's
    /// replies to its runs of prose.
    pub open spec fn spelling_diagnostics(
        self,
        cx: HostContext,
        id: Option<u32>,
        attrs: Seq<AttributeModel>,
        span: SourceSpan,
        replies: Seq<ReplyModel>,
    ) -> Seq<DiagnosticModel> {
        run_diagnostics(span, self.runs_to_check(cx, id, attrs).len(), replies)
    }

    /// Whether the check looks at a declaration.
    fn is_looked_at(&self, cx: &HostContext, id: Option<u32>) -> (yes: bool)
        ensures
            yes == self.looks_at(*cx, id),
    {
        if !cx.is_checked(id) {
            return false;
        }
        !(self.skip_hidden && self.doc_hidden())
    }

    /// The runs of prose of a declaration that the dictionary is to be asked
    /// about, in order.
    pub fn text_runs(&self, cx: &HostContext, id: Option<u32>, attrs: &[RawAttribute]) -> (runs:
        Vec<String>)
        ensures
            runs.deep_view() == self.runs_to_check(*cx, id, attrs.deep_view()),
    {
        if !self.is_looked_at(cx, id) {
            let runs: Vec<String> = Vec::new();
            return runs;
        }
        let block = to_text_block(attrs);
        let blocks = tokenize(block.as_str());
        prose_runs(&blocks)
    }

    /// The diagnostics for one run of prose, from the dictionary's reply.
    pub fn check_text(sp: SourceSpan, reply: &DictionaryReply) -> (diagnostics: Vec<Diagnostic>)
        ensures
            diagnostics.deep_view() == reply_diagnostics(sp, reply@),
    {
        let mut diagnostics: Vec<Diagnostic> = Vec::new();
        match reply {
            DictionaryReply::Checked(words) => {
                let mut i: usize = 0;
                while i < words.len()
                    invariant
                        i <= words.len(),
                        diagnostics.deep_view() == word_diagnostics(
                            sp,
                            words.deep_view().take(i as int),
                        ),
                    decreases words.len() - i,
                {
                    let ghost reported = diagnostics.deep_view();
                    assert(words.deep_view().take(i + 1).drop_last() =~= words.deep_view().take(
                        i as int,
                    ));
                    let word = &words[i];
                    if word.suggestions.len() > 0 {
                        let mut message = String::from_str("'");
                        message.append(word.misspelled.as_str());
                        message.append("' is misspelled. Maybe you meant '");
                        message.append(word.suggestions[0].as_str());
                        message.append("'");
                        diagnostics.push(Diagnostic { span: sp, message });
                        assert(diagnostics.deep_view() =~= reported.push(
                            DiagnosticModel {
                                span: sp,
                                message: spelling_message(
                                    word@.misspelled,
                                    word@.suggestions[0],
                                ),
                            },
                        ));
                    }
                    i += 1;
                }
                assert(words.deep_view().take(words.len() as int) =~= words.deep_view());
            },
            DictionaryReply::Failed => {},
        }
        diagnostics
    }

    /// Checks the spelling of one declaration, given the dictionary's replies
    /// to its runs of prose.
    pub fn check_spelling_errors(
        &self,
        cx: &HostContext,
        id: Option<u32>,
        attrs: &[RawAttribute],
        sp: SourceSpan,
        replies: &[DictionaryReply],
    ) -> (diagnostics: Vec<Diagnostic>)
        ensures
            diagnostics.deep_view() == self.spelling_diagnostics(
                *cx,
                id,
                attrs.deep_view(),
                sp,
                replies.deep_view(),
            ),
    {
        let runs = self.text_runs(cx, id, attrs);
        let mut diagnostics: Vec<Diagnostic> = Vec::new();
        let mut i: usize = 0;
        while i < runs.len()
            invariant
                i <= runs.len(),
                diagnostics.deep_view() == run_diagnostics(sp, i as nat, replies.deep_view()),
            decreases runs.len() - i,
        {
            if i < replies.len() {
                let ghost reported = diagnostics.deep_view();
                let mut found = Self::check_text(sp, &replies[i]);
                diagnostics.append(&mut found);
                assert(diagnostics.deep_view() =~= reported + reply_diagnostics(
                    sp,
                    replies[i as int]@,
                ));
            }
            i += 1;
        }
        diagnostics
    }

    /// Checks the spelling of the documentation of the compilation unit.
    pub fn check_crate(&self, cx: &HostContext, krate: &Crate, replies: &[DictionaryReply]) -> (
        diagnostics: Vec<Diagnostic>)
        ensures
            diagnostics.deep_view() == self.spelling_diagnostics(
                *cx,
                None,
                krate.attrs.deep_view(),
                krate.span,
                replies.deep_view(),
            ),
    {
        self.check_spelling_errors(cx, None, krate.attrs.as_slice(), krate.span, replies)
    }

    /// Checks the spelling of the documentation of one declaration.
    pub fn check_item(&self, cx: &HostContext, it: &Item, replies: &[DictionaryReply]) -> (
        diagnostics: Vec<Diagnostic>)
        ensures
            diagnostics.deep_view() == self.spelling_diagnostics(
                *cx,
                Some(it.id),
                it.attrs.deep_view(),
                it.span,
                replies.deep_view(),
            ),
    {
        self.check_spelling_errors(cx, Some(it.id), it.attrs.as_slice(), it.span, replies)
    }
}

/// The spelling check reports nothing while the host builds a test harness,
/// and nothing of a declaration that is not exported: no run of prose is
/// handed out, and no reply of the dictionary gives a diagnostic.
pub proof fn lemma_spelling_gate(
    checker: SpellingError,
    cx: HostContext,
    id: Option<u32>,
    attrs: Seq<AttributeModel>,
    span: SourceSpan,
    replies: Seq<ReplyModel>,
)
    requires
        cx.test_harness || (id matches Some(declaration) && !cx.exports(declaration)),
    ensures
        checker.runs_to_check(cx, id, attrs).len() == 0,
        checker.spelling_diagnostics(cx, id, attrs, span, replies).len() == 0,
{
}

/// Every diagnostic for the words of a run stands at the given place.
pub proof fn lemma_words_place(span: SourceSpan, words: Seq<MisspellingModel>)
    ensures
        forall|i: int|
            0 <= i < word_diagnostics(span, words).len() ==> (#[trigger] word_diagnostics(
                span,
                words,
            )[i]).span == span,
    decreases words.len(),
{
    if words.len() > 0 {
        let before = word_diagnostics(span, words.drop_last());
        lemma_words_place(span, words.drop_last());
        assert forall|i: int| 0 <= i < word_diagnostics(span, words).len() implies (
        #[trigger] word_diagnostics(span, words)[i]).span == span by {
            if i < before.len() {
                assert(word_diagnostics(span, words)[i] == before[i]);
            }
        }
    }
}

/// A text block that the tokenizer is not given has no prose to check.
pub proof fn lemma_raw_text_has_no_prose(
    checker: SpellingError,
    cx: HostContext,
    id: Option<u32>,
    attrs: Seq<AttributeModel>,
)
    requires
        !tokenizable(text_block(attrs)),
    ensures
        checker.runs_to_check(cx, id, attrs).len() == 0,
{
    let blocks = blocks_of(text_block(attrs));
    assert(blocks.drop_last() =~= Seq::empty());
    assert(document_runs(blocks.drop_last()) =~= Seq::empty());
}

/// A check that was made with `new` looks at all that the host admits,
/// hidden or not.
pub proof fn lemma_hidden_is_checked(checker: SpellingError, cx: HostContext, id: Option<u32>)
    requires
        !checker.skips_hidden(),
    ensures
        checker.looks_at(cx, id) == cx.admits(id),
{
}

/// The spelling check of an unchanged declaration, asked again of a
/// dictionary that answers as before, reports the same diagnostics as often.
pub proof fn lemma_spelling_repeats(
    checker: SpellingError,
    cx: HostContext,
    id: Option<u32>,
    attrs: Seq<AttributeModel>,
    span: SourceSpan,
    dictionary: spec_fn(Seq<char>) -> ReplyModel,
    first: Seq<ReplyModel>,
    second: Seq<ReplyModel>,
)
    requires
        first == replies_from(dictionary, checker.runs_to_check(cx, id, attrs)),
        second == replies_from(dictionary, checker.runs_to_check(cx, id, attrs)),
    ensures
        checker.spelling_diagnostics(cx, id, attrs, span, first).to_multiset()
            == checker.spelling_diagnostics(cx, id, attrs, span, second).to_multiset(),
{
}

} // verus!
