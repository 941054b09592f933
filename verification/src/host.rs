//! What the host hands over for each declaration, and what it gets back.
//!
//! The host walks the program. For every declaration it supplies the
//! attributes, the place in the source, the kind of the declaration and
//! whether the declaration is exported. The checks answer with diagnostics.

use vstd::prelude::*;

verus! {

/// A place in the source text, as a pair of byte positions. It anchors a
/// diagnostic and is never read.
#[derive(Clone, Copy, Debug, PartialEq, Eq, Structural)]
pub struct SourceSpan {
    pub lo: u32,
    pub hi: u32,
}

/// What stands behind the name of an attribute.
#[derive(Clone, Debug, PartialEq, Eq)]
pub enum AttributeValue {
    /// Nothing: `#[name]`.
    Word,
    /// A list, `#[name(a, b)]`, as the names of its named entries.
    List(Vec<String>),
    /// A string: `#[name = "text"]`. A documentation comment is such an
    /// attribute under the name `doc`, with the raw comment line as its
    /// text.
    Text(String),
    /// Another literal: `#[name = 1]`.
    Literal,
}

/// The mathematical model of an [`AttributeValue`].
pub enum AttributeValueModel {
    Word,
    List(Seq<Seq<char>>),
    Text(Seq<char>),
    Literal,
}

impl View for AttributeValue {
    type V = AttributeValueModel;

    open spec fn view(&self) -> AttributeValueModel {
        match self {
            AttributeValue::Word => AttributeValueModel::Word,
            AttributeValue::List(names) => AttributeValueModel::List(names.deep_view()),
            AttributeValue::Text(text) => AttributeValueModel::Text(text@),
            AttributeValue::Literal => AttributeValueModel::Literal,
        }
    }
}

/// One attribute of a declaration.
#[derive(Clone, Debug, PartialEq, Eq)]
pub struct RawAttribute {
    pub name: String,
    pub value: AttributeValue,
}

/// The mathematical model of a [`RawAttribute`].
pub struct AttributeModel {
    pub name: Seq<char>,
    pub value: AttributeValueModel,
}

impl View for RawAttribute {
    type V = AttributeModel;

    open spec fn view(&self) -> AttributeModel {
        AttributeModel { name: self.name@, value: self.value@ }
    }
}

impl DeepView for RawAttribute {
    type V = AttributeModel;

    open spec fn deep_view(&self) -> AttributeModel {
        self@
    }
}

/// The parameters of a function, in order. A parameter that is a pattern
/// rather than a plain name has no identifier.
#[derive(Clone, Debug, PartialEq, Eq)]
pub struct FunctionSignature {
    pub inputs: Vec<Option<String>>,
}

impl View for FunctionSignature {
    type V = Seq<Option<Seq<char>>>;

    open spec fn view(&self) -> Seq<Option<Seq<char>>> {
        self.inputs.deep_view()
    }
}

/// The kinds of declaration that the host visits.
#[derive(Clone, Debug, PartialEq, Eq)]
pub enum ItemKind {
    ExternCrate,
    Use,
    Static,
    Const,
    Fn(FunctionSignature),
    Mod,
    ForeignMod,
    Ty,
    Enum,
    Struct,
    Union,
    Trait,
    DefaultImpl,
    Impl,
}

impl ItemKind {
    /// The parameters of a function, and nothing of another declaration.
    pub open spec fn signature(self) -> Option<Seq<Option<Seq<char>>>> {
        match self {
            ItemKind::Fn(signature) => Some(signature@),
            _ => None,
        }
    }
}

/// A declaration, as the host supplies it.
#[derive(Clone, Debug, PartialEq, Eq)]
pub struct Item {
    pub id: u32,
    pub attrs: Vec<RawAttribute>,
    pub node: ItemKind,
    pub span: SourceSpan,
}

/// The compilation unit itself. It has no id, and so no visibility.
#[derive(Clone, Debug, PartialEq, Eq)]
pub struct Crate {
    pub attrs: Vec<RawAttribute>,
    pub span: SourceSpan,
}

/// What the checks ask of the host while they run.
#[derive(Clone, Debug, PartialEq, Eq)]
pub struct HostContext {
    /// The host builds a test harness: nothing is reported.
    pub test_harness: bool,
    /// The ids of the exported declarations.
    pub exported: Vec<u32>,
}

impl HostContext {
    /// Whether the declaration `id` belongs to the public interface.
    pub open spec fn exports(&self, id: u32) -> bool {
        self.exported@.contains(id)
    }

    /// Whether the declaration `id` belongs to the public interface.
    pub fn is_exported(&self, id: u32) -> (exported: bool)
        ensures
            exported == self.exports(id),
    {
        let mut i: usize = 0;
        while i < self.exported.len()
            invariant
                i <= self.exported.len(),
                forall|k: int| 0 <= k < i ==> self.exported@[k] != id,
            decreases self.exported.len() - i,
        {
            if self.exported[i] == id {
                return true;
            }
            i += 1;
        }
        false
    }

    /// Whether a declaration is looked at: never in a test harness, and only
    /// if it is exported. Without an id it is the compilation unit, which is
    /// always looked at.
    pub open spec fn admits(&self, id: Option<u32>) -> bool {
        &&& !self.test_harness
        &&& match id {
            Some(id) => self.exports(id),
            None => true,
        }
    }

    /// Whether a declaration is looked at.
    pub fn is_checked(&self, id: Option<u32>) -> (checked: bool)
        ensures
            checked == self.admits(id),
    {
        if self.test_harness {
            return false;
        }
        match id {
            Some(id) => self.is_exported(id),
            None => true,
        }
    }
}

/// A warning for the host to show at `span`.
#[derive(Clone, Debug, PartialEq, Eq)]
pub struct Diagnostic {
    pub span: SourceSpan,
    pub message: String,
}

/// The mathematical model of a [`Diagnostic`].
pub struct DiagnosticModel {
    pub span: SourceSpan,
    pub message: Seq<char>,
}

impl View for Diagnostic {
    type V = DiagnosticModel;

    open spec fn view(&self) -> DiagnosticModel {
        DiagnosticModel { span: self.span, message: self.message@ }
    }
}

impl DeepView for Diagnostic {
    type V = DiagnosticModel;

    open spec fn deep_view(&self) -> DiagnosticModel {
        self@
    }
}

} // verus!
