//! What a lint reports: a diagnostic, its suggested edits, and how far each
//! edit can be trusted.

use vstd::prelude::*;
use crate::ty::Span;

verus! {

/// How safely a suggested edit can be applied without a human looking at it.
#[derive(Clone, Copy, Debug, PartialEq, Eq, Structural)]
pub enum Applicability {
    /// Exact: a tool may apply it.
    MachineApplicable,
    /// Syntactically sound, but it may change what the code means.
    MaybeIncorrect,
    /// Holds placeholder text that a human has to fill in.
    HasPlaceholders,
    Unspecified,
}

/// The level after an edit turned out to need a placeholder.
pub open spec fn downgraded(a: Applicability) -> Applicability {
    if a == Applicability::MachineApplicable {
        Applicability::HasPlaceholders
    } else {
        a
    }
}

/// Lowers `MachineApplicable` to `HasPlaceholders`; leaves a lower level as it is.
pub fn downgrade_to_placeholders(a: &mut Applicability)
    ensures
        *final(a) == downgraded(*old(a)),
{
    if *a == Applicability::MachineApplicable {
        *a = Applicability::HasPlaceholders;
    }
}

/// A suggested edit: put `replacement` where `span` is.
#[derive(Debug)]
pub struct Suggestion {
    pub span: Span,
    pub msg: String,
    pub replacement: String,
    pub applicability: Applicability,
}

pub struct SuggestionView {
    pub span: Span,
    pub msg: Seq<char>,
    pub replacement: Seq<char>,
    pub applicability: Applicability,
}

impl View for Suggestion {
    type V = SuggestionView;

    open spec fn view(&self) -> SuggestionView {
        SuggestionView {
            span: self.span,
            msg: self.msg@,
            replacement: self.replacement@,
            applicability: self.applicability,
        }
    }
}

/// One finding of one lint.
#[derive(Debug)]
pub struct Diagnostic {
    /// The lint's qualified name, `bevy::<name>`.
    pub lint: String,
    pub span: Span,
    pub message: String,
    pub help: Option<String>,
    pub suggestions: Vec<Suggestion>,
}

pub struct DiagnosticView {
    pub lint: Seq<char>,
    pub span: Span,
    pub message: Seq<char>,
    pub help: Option<Seq<char>>,
    pub suggestions: Seq<SuggestionView>,
}

impl View for Diagnostic {
    type V = DiagnosticView;

    open spec fn view(&self) -> DiagnosticView {
        DiagnosticView {
            lint: self.lint@,
            span: self.span,
            message: self.message@,
            help: match self.help {
                Some(h) => Some(h@),
                None => None,
            },
            suggestions: self.suggestions@.map_values(|s: Suggestion| s@),
        }
    }
}

/// The views of a sequence of diagnostics, in order.
pub open spec fn diag_views(ds: Seq<Diagnostic>) -> Seq<DiagnosticView> {
    ds.map_values(|d: Diagnostic| d@)
}

} // verus!
