//! Flags a query that selects a zero-sized type: such a type carries no data and
//! is better written as a filter, `With<T>`.

use vstd::prelude::*;
use crate::diagnostic::{diag_views, Diagnostic, DiagnosticView};
use crate::paths;
use crate::source::{snippet, snippet_spec};
use crate::ty::{lemma_ref_layers_keep_identity, ref_layers, def_path, detuple, detuple_spec, generic_type_at, generic_type_at_spec, path_eq, peeled, Span, Ty, TyKind};

verus! {

/// Whether the front end could size a type, and if so whether it is zero-sized.
pub open spec fn zero_sized_spec(t: Ty) -> Option<bool> {
    match t.size {
        Some(n) => Some(n == 0),
        None => None,
    }
}

/// A type's text for a message: its source, or `T` where that cannot be had.
pub open spec fn ty_text(source: Seq<char>, t: Ty) -> Seq<char> {
    match snippet_spec(source, t.span) {
        Some(s) => s,
        None => "T"@,
    }
}

pub open spec fn help_spec(text: Seq<char>) -> Seq<char> {
    "consider using a filter instead: `With<"@ + text + ">`"@
}

pub open spec fn zst_diag(span: Span, text: Seq<char>) -> DiagnosticView {
    DiagnosticView {
        lint: "bevy::zst_query"@,
        span,
        message: "query for a zero-sized type"@,
        help: Some(help_spec(text)),
        suggestions: seq![],
    }
}

/// The finding for one selected element, if it is zero-sized once its references
/// are stripped.
pub open spec fn zst_elem(source: Seq<char>, e: Ty) -> Seq<DiagnosticView> {
    if zero_sized_spec(peeled(e)) == Some(true) {
        seq![zst_diag(e.span, ty_text(source, peeled(e)))]
    } else {
        seq![]
    }
}

/// The findings among the selected element types.
pub open spec fn zst_diags(source: Seq<char>, elems: Seq<Ty>) -> Seq<DiagnosticView>
    decreases elems.len(),
{
    if elems.len() == 0 {
        seq![]
    } else {
        zst_diags(source, elems.drop_last()) + zst_elem(source, elems.last())
    }
}

/// What the lint reports at one written type: for `Query<'w, 's, D, F>`, each element
/// of `D` that is zero-sized once its references are stripped.
pub open spec fn check_ty_spec(source: Seq<char>, ty: Ty) -> Seq<DiagnosticView> {
    if def_path(ty) != Some(paths::query_path()) {
        seq![]
    } else {
        match generic_type_at_spec(ty, 2) {
            None => seq![],
            Some(data) => zst_diags(source, detuple_spec(data)),
        }
    }
}

/// An element written `E`, `&E`, `&mut E`, or under more references, is reported
/// alike: at its own span, with advice that names `E`, exactly when `E` is zero-sized.
pub proof fn lemma_zst_elem_through_refs(source: Seq<char>, written: Ty, inner: Ty, k: nat)
    requires
        ref_layers(written, inner, k),
    ensures
        zst_elem(source, written) == if zero_sized_spec(peeled(inner)) == Some(true) {
            seq![zst_diag(written.span, ty_text(source, peeled(inner)))]
        } else {
            seq![]
        },
{
    lemma_ref_layers_keep_identity(written, inner, k, seq![]);
}

/// The kinds of query this lint knows.
#[derive(Clone, Copy, Debug, PartialEq, Eq, Structural)]
pub enum QueryKind {
    Query,
}

impl QueryKind {
    /// The kind of the written type itself (references are not looked through:
    /// the type under them is visited on its own).
    pub fn try_from_ty(ty: &Ty) -> (r: Option<QueryKind>)
        ensures
            r is Some <==> def_path(*ty) == Some(paths::query_path()),
    {
        let query_path = paths::query();
        match &ty.kind {
            TyKind::Adt { path, .. } => {
                if path_eq(path, &query_path) {
                    Some(QueryKind::Query)
                } else {
                    None
                }
            },
            _ => None,
        }
    }

    /// The advice for a zero-sized element whose text is `ty_text`.
    pub fn help(&self, ty_text: &str) -> (r: String)
        ensures
            r@ == help_spec(ty_text@),
    {
        match self {
            QueryKind::Query => {
                let mut r = String::from_str("consider using a filter instead: `With<");
                r.append(ty_text);
                r.append(">`");
                r
            },
        }
    }
}

/// `Some(true)` for a zero-sized type, `Some(false)` for a sized one, `None` where
/// the size cannot be determined.
pub fn is_zero_sized(ty: &Ty) -> (r: Option<bool>)
    ensures
        r == zero_sized_spec(*ty),
{
    match ty.size {
        Some(n) => Some(n == 0),
        None => None,
    }
}

/// The lint pass.
pub struct ZstQuery;

impl ZstQuery {
    /// Checks one written type; appends what it finds to `out`.
    pub fn check_ty(&self, source: &str, ty: &Ty, out: &mut Vec<Diagnostic>)
        ensures
            diag_views(final(out)@) == diag_views(old(out)@) + check_ty_spec(source@, *ty),
    {
        let query_kind = match QueryKind::try_from_ty(ty) {
            Some(k) => k,
            None => {
                proof {
                    assert(diag_views(out@) =~= diag_views(out@) + seq![]);
                }
                return;
            },
        };
        let query_data_ty = match generic_type_at(ty, 2) {
            Some(d) => d,
            None => {
                proof {
                    assert(diag_views(out@) =~= diag_views(out@) + seq![]);
                }
                return;
            },
        };
        let elems = detuple(query_data_ty);
        let ghost want = detuple_spec(*query_data_ty);
        let ghost start = diag_views(out@);
        let mut i: usize = 0;
        while i < elems.len()
            invariant
                0 <= i <= elems@.len(),
                elems@.len() == want.len(),
                forall|j: int| 0 <= j < elems@.len() ==> *elems@[j] == want[j],
                diag_views(out@) == start + zst_diags(source@, want.take(i as int)),
            decreases elems.len() - i,
        {
            let elem = elems[i];
            proof {
                assert(want.take(i as int + 1).drop_last() =~= want.take(i as int));
                assert(want.take(i as int + 1).last() == *elem);
            }
            let ghost before = out@;
            let peeled_ty = elem.peel_refs();
            if is_zero_sized(peeled_ty) == Some(true) {
                let text = match snippet(source, peeled_ty.span) {
                    Some(t) => t,
                    None => String::from_str("T"),
                };
                let d = Diagnostic {
                    lint: String::from_str("bevy::zst_query"),
                    span: elem.span,
                    message: String::from_str("query for a zero-sized type"),
                    help: Some(query_kind.help(text.as_str())),
                    suggestions: Vec::new(),
                };
                proof {
                    assert(d@.suggestions =~= seq![]);
                }
                out.push(d);
                proof {
                    assert(diag_views(out@) =~= diag_views(before) + seq![d@]);
                }
            }
            i = i + 1;
            proof {
                assert(diag_views(out@) =~= start + zst_diags(source@, want.take(i as int)));
            }
        }
        proof {
            assert(want.take(i as int) =~= want);
        }
    }
}

} // verus!
