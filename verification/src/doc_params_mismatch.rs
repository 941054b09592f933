//! The check of documented parameters against the parameters of the function.

use vstd::prelude::*;
use vstd::seq_lib::lemma_seq_contains_after_push;
use vstd::string::StringExecFns;
use crate::helpers::{contains_name, text_block, to_text_block};
use crate::host::{
    AttributeModel, Diagnostic, DiagnosticModel, FunctionSignature, HostContext, Item, ItemKind,
    RawAttribute, SourceSpan,
};
use crate::sections::{parse_docblock, readable, sections_of, DocSection, SectionModel};

verus! {

/// The names of the parameters that have one, in order.
pub open spec fn input_names(inputs: Seq<Option<Seq<char>>>) -> Seq<Seq<char>>
    decreases inputs.len(),
{
    if inputs.len() == 0 {
        Seq::empty()
    } else {
        let before = input_names(inputs.drop_last());
        match inputs.last() {
            Some(name) => before.push(name),
            None => before,
        }
    }
}

/// The names of a list of documented parameters, in order.
pub open spec fn entry_names(entries: Seq<(Seq<char>, Seq<char>)>) -> Seq<Seq<char>> {
    Seq::new(entries.len(), |i: int| entries[i].0)
}

/// The names that the `Parameters` sections document, in the order of the
/// text. The other sections document none.
pub open spec fn documented_names(sections: Seq<SectionModel>) -> Seq<Seq<char>>
    decreases sections.len(),
{
    if sections.len() == 0 {
        Seq::empty()
    } else {
        let before = documented_names(sections.drop_last());
        match sections.last() {
            SectionModel::Parameters(entries) => before + entry_names(entries),
            _ => before,
        }
    }
}

/// The documented names that are not among the real ones, each once, in the
/// order in which the text first documents them.
pub open spec fn missing_names(documented: Seq<Seq<char>>, actual: Seq<Seq<char>>) -> Seq<Seq<char>>
    decreases documented.len(),
{
    if documented.len() == 0 {
        Seq::empty()
    } else {
        let before = missing_names(documented.drop_last(), actual);
        let name = documented.last();
        if actual.contains(name) || documented.drop_last().contains(name) {
            before
        } else {
            before.push(name)
        }
    }
}

/// What is said of a documented parameter that the function does not have.
pub open spec fn mismatch_message(name: Seq<char>) -> Seq<char> {
    "The documented parameter '"@ + name + "' does not exist for this function."@
}

/// One diagnostic at `span` for each of `names`, in order.
pub open spec fn mismatches(span: SourceSpan, names: Seq<Seq<char>>) -> Seq<DiagnosticModel> {
    Seq::new(
        names.len(),
        |i: int| (DiagnosticModel { span: span, message: mismatch_message(names[i]) }),
    )
}

/// What the check reports of a declaration: nothing unless the host admits
/// the declaration, it is a function and its text block has sections to
/// show; else one diagnostic for each documented parameter that the function
/// does not have.
pub open spec fn mismatch_diagnostics(
    cx: HostContext,
    id: Option<u32>,
    attrs: Seq<AttributeModel>,
    signature: Option<Seq<Option<Seq<char>>>>,
    span: SourceSpan,
) -> Seq<DiagnosticModel> {
    if !cx.admits(id) {
        Seq::empty()
    } else {
        match (signature, sections_of(text_block(attrs))) {
            (Some(inputs), Some(sections)) => mismatches(
                span,
                missing_names(documented_names(sections), input_names(inputs)),
            ),
            _ => Seq::empty(),
        }
    }
}

/// The check of documented parameters. It keeps no state.
pub struct DocParamsMismatch;

/// Sections without a `Parameters` section document no name.
pub proof fn lemma_no_parameters_no_names(sections: Seq<SectionModel>)
    requires
        forall|i: int| 0 <= i < sections.len() ==> !(#[trigger] sections[i] is Parameters),
    ensures
        documented_names(sections).len() == 0,
    decreases sections.len(),
{
    if sections.len() > 0 {
        let earlier = sections.drop_last();
        assert forall|i: int| 0 <= i < earlier.len() implies !(#[trigger] earlier[i] is Parameters) by {
            assert(earlier[i] == sections[i]);
        }
        lemma_no_parameters_no_names(earlier);
    }
}

/// A text block without a `Parameters` section gives no diagnostic, whatever
/// the declaration.
pub proof fn lemma_no_parameters_no_diagnostic(
    cx: HostContext,
    id: Option<u32>,
    attrs: Seq<AttributeModel>,
    signature: Option<Seq<Option<Seq<char>>>>,
    span: SourceSpan,
)
    requires
        sections_of(text_block(attrs)) matches Some(sections) ==> forall|i: int|
            0 <= i < sections.len() ==> !(#[trigger] sections[i] is Parameters),
    ensures
        mismatch_diagnostics(cx, id, attrs, signature, span).len() == 0,
{
    if let Some(sections) = sections_of(text_block(attrs)) {
        lemma_no_parameters_no_names(sections);
    }
}

/// The names that are reported are the documented names that are not real,
/// and none is reported twice.
pub proof fn lemma_missing_names(documented: Seq<Seq<char>>, actual: Seq<Seq<char>>)
    ensures
        missing_names(documented, actual).no_duplicates(),
        forall|name: Seq<char>| #[trigger]
            missing_names(documented, actual).contains(name) <==> documented.contains(name)
                && !actual.contains(name),
    decreases documented.len(),
{
    if documented.len() > 0 {
        let earlier = documented.drop_last();
        let last = documented.last();
        let before = missing_names(earlier, actual);
        lemma_missing_names(earlier, actual);
        assert(documented =~= earlier.push(last));
        assert forall|name: Seq<char>| #[trigger]
            missing_names(documented, actual).contains(name) <==> documented.contains(name)
                && !actual.contains(name) by {
            lemma_seq_contains_after_push(earlier, last, name);
            lemma_seq_contains_after_push(before, last, name);
        }
        if !actual.contains(last) && !earlier.contains(last) {
            assert forall|i: int| 0 <= i < before.len() implies before[i] != last by {
                assert(before.contains(before[i]));
            }
        }
    }
}

/// The message holds the name as it stands in the documentation, and
/// different names give different messages.
pub proof fn lemma_message_names_parameter(name: Seq<char>, other: Seq<char>)
    ensures
        mismatch_message(name).skip("The documented parameter '"@.len() as int).take(
            name.len() as int,
        ) == name,
        mismatch_message(name) == mismatch_message(other) ==> name == other,
{
    let head = "The documented parameter '"@;
    if mismatch_message(name) == mismatch_message(other) {
        assert(mismatch_message(other).skip(head.len() as int).take(other.len() as int)
            =~= other);
    }
}

/// Whether exactly one of `diagnostics` has the message `message`.
pub open spec fn says_once(diagnostics: Seq<DiagnosticModel>, message: Seq<char>) -> bool {
    exists|i: int|
        {
            &&& 0 <= i < diagnostics.len()
            &&& (#[trigger] diagnostics[i]).message == message
            &&& forall|j: int|
                0 <= j < diagnostics.len() && (#[trigger] diagnostics[j]).message == message ==> j
                    == i
        }
}

/// A name that a `Parameters` section documents and that no parameter of
/// the function bears is reported by exactly one diagnostic, whose message
/// names it.
pub proof fn lemma_one_diagnostic_for_each_missing_name(
    cx: HostContext,
    id: Option<u32>,
    attrs: Seq<AttributeModel>,
    inputs: Seq<Option<Seq<char>>>,
    span: SourceSpan,
    name: Seq<char>,
)
    requires
        cx.admits(id),
        sections_of(text_block(attrs)) matches Some(sections) && documented_names(
            sections,
        ).contains(name),
        !input_names(inputs).contains(name),
    ensures
        says_once(mismatch_diagnostics(cx, id, attrs, Some(inputs), span), mismatch_message(name)),
{
    let sections = sections_of(text_block(attrs))->0;
    let missing = missing_names(documented_names(sections), input_names(inputs));
    let found = mismatch_diagnostics(cx, id, attrs, Some(inputs), span);
    lemma_missing_names(documented_names(sections), input_names(inputs));
    assert(missing.contains(name));
    let i = choose|i: int| 0 <= i < missing.len() && missing[i] == name;
    assert(found[i].message == mismatch_message(name));
    assert forall|j: int|
        0 <= j < found.len() && (#[trigger] found[j]).message == mismatch_message(
            name,
        ) implies j == i by {
        lemma_message_names_parameter(missing[j], name);
    }
}

/// A name that a parameter of the function bears is not reported, and
/// neither is a name that no `Parameters` section documents.
pub proof fn lemma_no_diagnostic_for_other_names(
    cx: HostContext,
    id: Option<u32>,
    attrs: Seq<AttributeModel>,
    signature: Option<Seq<Option<Seq<char>>>>,
    span: SourceSpan,
    name: Seq<char>,
)
    requires
        match (signature, sections_of(text_block(attrs))) {
            (Some(inputs), Some(sections)) => input_names(inputs).contains(name)
                || !documented_names(sections).contains(name),
            _ => true,
        },
    ensures
        forall|j: int|
            0 <= j < mismatch_diagnostics(cx, id, attrs, signature, span).len() ==> (
            #[trigger] mismatch_diagnostics(cx, id, attrs, signature, span)[j]).message
                != mismatch_message(name),
{
    let found = mismatch_diagnostics(cx, id, attrs, signature, span);
    assert forall|j: int| 0 <= j < found.len() implies (#[trigger] found[j]).message
        != mismatch_message(name) by {
        let inputs = signature->0;
        let sections = sections_of(text_block(attrs))->0;
        let missing = missing_names(documented_names(sections), input_names(inputs));
        lemma_missing_names(documented_names(sections), input_names(inputs));
        assert(missing.contains(missing[j]));
        lemma_message_names_parameter(missing[j], name);
    }
}

/// Every diagnostic stands at the place of the declaration. A text block
/// that the parser is not given gives no diagnostic.
pub proof fn lemma_mismatch_place(
    cx: HostContext,
    id: Option<u32>,
    attrs: Seq<AttributeModel>,
    signature: Option<Seq<Option<Seq<char>>>>,
    span: SourceSpan,
)
    ensures
        forall|i: int|
            0 <= i < mismatch_diagnostics(cx, id, attrs, signature, span).len() ==> (
            #[trigger] mismatch_diagnostics(cx, id, attrs, signature, span)[i]).span == span,
        !readable(text_block(attrs)) ==> mismatch_diagnostics(cx, id, attrs, signature, span).len()
            == 0,
{
}

/// The check of an unchanged declaration, made again, reports the same
/// diagnostics as often.
pub proof fn lemma_mismatch_repeats(
    cx: HostContext,
    id: Option<u32>,
    attrs: Seq<AttributeModel>,
    signature: Option<Seq<Option<Seq<char>>>>,
    span: SourceSpan,
    first: Seq<DiagnosticModel>,
    second: Seq<DiagnosticModel>,
)
    requires
        first == mismatch_diagnostics(cx, id, attrs, signature, span),
        second == mismatch_diagnostics(cx, id, attrs, signature, span),
    ensures
        first.to_multiset() == second.to_multiset(),
{
}

/// Nothing is reported while the host builds a test harness, and nothing of
/// a declaration that is not exported.
pub proof fn lemma_mismatch_gate(
    cx: HostContext,
    id: Option<u32>,
    attrs: Seq<AttributeModel>,
    signature: Option<Seq<Option<Seq<char>>>>,
    span: SourceSpan,
)
    ensures
        cx.test_harness ==> mismatch_diagnostics(cx, id, attrs, signature, span).len() == 0,
        (id matches Some(declaration) && !cx.exports(declaration)) ==> mismatch_diagnostics(
            cx,
            id,
            attrs,
            signature,
            span,
        ).len() == 0,
{
}

/// The names of the parameters of `signature` that have one.
pub fn named_inputs(signature: &FunctionSignature) -> (names: Vec<String>)
    ensures
        names.deep_view() == input_names(signature@),
{
    let mut names: Vec<String> = Vec::new();
    let mut i: usize = 0;
    while i < signature.inputs.len()
        invariant
            i <= signature.inputs.len(),
            names.deep_view() == input_names(signature@.take(i as int)),
        decreases signature.inputs.len() - i,
    {
        assert(signature@.take(i + 1).drop_last() =~= signature@.take(i as int));
        match &signature.inputs[i] {
            Some(name) => {
                names.push(name.clone());
            },
            None => {},
        }
        i += 1;
    }
    assert(signature@.take(signature.inputs.len() as int) =~= signature@);
    names
}

/// The names that the `Parameters` sections among `sections` document.
pub fn parameter_names(sections: &Vec<DocSection>) -> (names: Vec<String>)
    ensures
        names.deep_view() == documented_names(sections.deep_view()),
{
    let mut names: Vec<String> = Vec::new();
    let mut i: usize = 0;
    while i < sections.len()
        invariant
            i <= sections.len(),
            names.deep_view() == documented_names(sections.deep_view().take(i as int)),
        decreases sections.len() - i,
    {
        let ghost before = names.deep_view();
        assert(sections.deep_view().take(i + 1).drop_last() =~= sections.deep_view().take(
            i as int,
        ));
        match &sections[i] {
            DocSection::Parameters(entries) => {
                let mut j: usize = 0;
                while j < entries.len()
                    invariant
                        j <= entries.len(),
                        names.deep_view() == before + entry_names(entries.deep_view()).take(
                            j as int,
                        ),
                    decreases entries.len() - j,
                {
                    let ghost so_far = names.deep_view();
                    names.push(entries[j].0.clone());
                    assert(names.deep_view() =~= so_far.push(entries[j as int].0@));
                    assert(names.deep_view() =~= before + entry_names(entries.deep_view()).take(
                        j + 1,
                    ));
                    j += 1;
                }
                assert(entry_names(entries.deep_view()).take(entries.len() as int)
                    =~= entry_names(entries.deep_view()));
            },
            _ => {},
        }
        i += 1;
    }
    assert(sections.deep_view().take(sections.len() as int) =~= sections.deep_view());
    names
}

/// The names among `documented` that are not among `actual`, each once.
pub fn names_without_parameter(documented: &Vec<String>, actual: &Vec<String>) -> (missing: Vec<
    String,
>)
    ensures
        missing.deep_view() == missing_names(documented.deep_view(), actual.deep_view()),
{
    let mut missing: Vec<String> = Vec::new();
    let mut i: usize = 0;
    while i < documented.len()
        invariant
            i <= documented.len(),
            missing.deep_view() == missing_names(
                documented.deep_view().take(i as int),
                actual.deep_view(),
            ),
        decreases documented.len() - i,
    {
        let ghost seen = documented.deep_view().take(i as int);
        assert(documented.deep_view().take(i + 1).drop_last() =~= seen);
        let name = &documented[i];
        if !contains_name(actual, name) && !documented_before(documented, i) {
            missing.push(name.clone());
        }
        i += 1;
    }
    assert(documented.deep_view().take(documented.len() as int) =~= documented.deep_view());
    missing
}

/// Whether the name at `at` stands in `names` before `at` too.
fn documented_before(names: &Vec<String>, at: usize) -> (found: bool)
    requires
        at < names.len(),
    ensures
        found == names.deep_view().take(at as int).contains(names[at as int]@),
{
    let mut i: usize = 0;
    while i < at
        invariant
            i <= at,
            at < names.len(),
            forall|k: int| 0 <= k < i ==> names.deep_view()[k] != names[at as int]@,
        decreases at - i,
    {
        if names[i] == names[at] {
            assert(names.deep_view().take(at as int)[i as int] == names[at as int]@);
            return true;
        }
        i += 1;
    }
    false
}

/// The diagnostic for one documented parameter that the function lacks.
pub fn mismatch(span: SourceSpan, name: &String) -> (diagnostic: Diagnostic)
    ensures
        diagnostic@ == (DiagnosticModel { span: span, message: mismatch_message(name@) }),
{
    let mut message = String::from_str("The documented parameter '");
    message.append(name.as_str());
    message.append("' does not exist for this function.");
    Diagnostic { span, message }
}

impl DocParamsMismatch {
    /// Checks one declaration.
    pub fn lint(
        &self,
        cx: &HostContext,
        id: Option<u32>,
        attrs: &[RawAttribute],
        item: &ItemKind,
        sp: SourceSpan,
    ) -> (diagnostics: Vec<Diagnostic>)
        ensures
            diagnostics.deep_view() == mismatch_diagnostics(
                *cx,
                id,
                attrs.deep_view(),
                item.signature(),
                sp,
            ),
    {
        let mut diagnostics: Vec<Diagnostic> = Vec::new();
        if !cx.is_checked(id) {
            return diagnostics;
        }
        let signature = match item {
            ItemKind::Fn(signature) => signature,
            ItemKind::ExternCrate
            | ItemKind::Use
            | ItemKind::Static
            | ItemKind::Const
            | ItemKind::Mod
            | ItemKind::ForeignMod
            | ItemKind::Ty
            | ItemKind::Enum
            | ItemKind::Struct
            | ItemKind::Union
            | ItemKind::Trait
            | ItemKind::DefaultImpl
            | ItemKind::Impl => {
                return diagnostics;
            },
        };
        let actual = named_inputs(signature);
        let block = to_text_block(attrs);
        let sections = match parse_docblock(block.as_str()) {
            Ok(sections) => sections,
            Err(_) => {
                return diagnostics;
            },
        };
        let documented = parameter_names(&sections);
        let missing = names_without_parameter(&documented, &actual);
        let mut i: usize = 0;
        while i < missing.len()
            invariant
                i <= missing.len(),
                diagnostics.deep_view() == mismatches(sp, missing.deep_view()).take(i as int),
            decreases missing.len() - i,
        {
            let ghost reported = diagnostics.deep_view();
            diagnostics.push(mismatch(sp, &missing[i]));
            assert(diagnostics.deep_view() =~= reported.push(
                mismatches(sp, missing.deep_view())[i as int],
            ));
            i += 1;
        }
        assert(mismatches(sp, missing.deep_view()).take(missing.len() as int) =~= mismatches(
            sp,
            missing.deep_view(),
        ));
        diagnostics
    }

    /// Checks one declaration that the host visits.
    pub fn check_item(&self, cx: &HostContext, it: &Item) -> (diagnostics: Vec<Diagnostic>)
        ensures
            diagnostics.deep_view() == mismatch_diagnostics(
                *cx,
                Some(it.id),
                it.attrs.deep_view(),
                it.node.signature(),
                it.span,
            ),
    {
        self.lint(cx, Some(it.id), it.attrs.as_slice(), &it.node, it.span)
    }
}

} // verus!
