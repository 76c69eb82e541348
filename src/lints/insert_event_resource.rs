//! Flags `App::insert_resource(Events<T>)` and `App::init_resource::<Events<T>>()`:
//! inserting the `Events` resource by hand does not register the event, which
//! `App::add_event::<T>()` does in full.

use vstd::prelude::*;
use crate::diagnostic::{
    diag_views, downgrade_to_placeholders, downgraded, Applicability, Diagnostic, DiagnosticView,
    Suggestion, SuggestionView,
};
use crate::hir::{Expr, ExprKind, PathSegment};
use crate::source::{snippet_spec, snippet_with_applicability};
use crate::text::str_eq;
use crate::ty::{match_type, matches_path, GenericArg, Span, Ty, TyKind};
use crate::paths;

verus! {

/// The text of a generic argument: the source under a type's span. A lifetime
/// names no event type, so it has none.
pub open spec fn arg_text(source: Seq<char>, arg: GenericArg) -> Option<Seq<char>> {
    match arg {
        GenericArg::Type(t) => snippet_spec(source, t.span),
        GenericArg::Lifetime(_) => None,
    }
}

/// `T` of an inferred `Events<T>` with the applicability it leaves, starting from `a`.
pub open spec fn ty_event_snippet_spec(source: Seq<char>, events_ty: Ty, a: Applicability) -> (
    Seq<char>,
    Applicability,
) {
    match events_ty.kind {
        TyKind::Adt { args, .. } => if args@.len() > 0 {
            match arg_text(source, args@[0]) {
                Some(t) => (t, a),
                None => ("T"@, downgraded(a)),
            }
        } else {
            ("T"@, downgraded(a))
        },
        _ => ("T"@, downgraded(a)),
    }
}

/// The event's text is the source of `Events<B>`'s first argument `B`, with the
/// applicability kept, whenever that text can be recovered.
pub proof fn lemma_event_text_recovered(source: Seq<char>, events_ty: Ty, b: Ty, a: Applicability)
    requires
        events_ty.kind is Adt,
        events_ty.kind->args@.len() > 0,
        events_ty.kind->args@[0] == GenericArg::Type(b),
        snippet_spec(source, b.span) is Some,
    ensures
        ty_event_snippet_spec(source, events_ty, a) == (snippet_spec(source, b.span)->0, a),
{
}

/// `T` of a written `Events<T>` (exactly one type argument) with the applicability
/// it leaves, starting from `a`.
pub open spec fn hir_event_snippet_spec(source: Seq<char>, events_ty: Ty, a: Applicability) -> (
    Seq<char>,
    Applicability,
) {
    match events_ty.kind {
        TyKind::Adt { args, .. } => if args@.len() == 1 && args@[0] is Type {
            match snippet_spec(source, args@[0]->Type_0.span) {
                Some(t) => (t, a),
                None => ("T"@, downgraded(a)),
            }
        } else {
            ("T"@, downgraded(a))
        },
        _ => ("T"@, downgraded(a)),
    }
}

/// The finding: at the method, with the `add_event::<T>()` replacement.
pub open spec fn event_diag(message: Seq<char>, span: Span, event: Seq<char>, a: Applicability) -> DiagnosticView {
    DiagnosticView {
        lint: "bevy::insert_event_resource"@,
        span,
        message,
        help: None,
        suggestions: seq![
            SuggestionView {
                span,
                msg: "inserting an `Events` resource does not fully setup that event"@,
                replacement: "add_event::<"@ + event + ">()"@,
                applicability: a,
            },
        ],
    }
}

pub open spec fn insert_message() -> Seq<char> {
    "called `App::insert_resource(Events<T>)` instead of `App::add_event::<T>()`"@
}

pub open spec fn init_message() -> Seq<char> {
    "called `App::init_resource::<Events<T>>()` instead of `App::add_event::<T>()`"@
}

/// What `insert_resource(args)` reports.
pub open spec fn insert_resource_spec(source: Seq<char>, args: Seq<Expr>, method_span: Span) -> Seq<DiagnosticView> {
    if args.len() == 1 && matches_path(args[0].ty, paths::events_path()) {
        let (event, a) = ty_event_snippet_spec(
            source,
            args[0].ty,
            Applicability::MachineApplicable,
        );
        seq![event_diag(insert_message(), method_span, event, a)]
    } else {
        seq![]
    }
}

/// What `init_resource::<generic_args>()` reports.
pub open spec fn init_resource_spec(source: Seq<char>, segment: PathSegment, method_span: Span) -> Seq<DiagnosticView> {
    if segment.generic_args@.len() == 1 && segment.generic_args@[0] is Type && matches_path(
        segment.generic_args@[0]->Type_0,
        paths::events_path(),
    ) {
        let (event, a) = hir_event_snippet_spec(
            source,
            segment.generic_args@[0]->Type_0,
            Applicability::MachineApplicable,
        );
        seq![event_diag(init_message(), method_span, event, a)]
    } else {
        seq![]
    }
}

/// What the lint reports at one expression.
pub open spec fn check_expr_spec(source: Seq<char>, expr: Expr) -> Seq<DiagnosticView> {
    match expr.kind {
        ExprKind::MethodCall { segment, receiver, args, method_span } => if !matches_path(
            receiver.ty,
            paths::app_path(),
        ) {
            seq![]
        } else if segment.name@ == "insert_resource"@ {
            insert_resource_spec(source, args@, method_span)
        } else if segment.name@ == "init_resource"@ {
            init_resource_spec(source, segment, method_span)
        } else {
            seq![]
        },
        _ => seq![],
    }
}

/// The lint pass.
pub struct InsertEventResource;

impl InsertEventResource {
    /// Checks one expression; appends what it finds to `out`.
    pub fn check_expr(&self, source: &str, expr: &Expr, out: &mut Vec<Diagnostic>)
        ensures
            diag_views(final(out)@) == diag_views(old(out)@) + check_expr_spec(source@, *expr),
    {
        if let ExprKind::MethodCall { segment, receiver, args, method_span } = &expr.kind {
            let app_path = paths::app();
            if !match_type(&receiver.ty, &app_path) {
                proof {
                    assert(diag_views(out@) =~= diag_views(out@) + seq![]);
                }
                return;
            }
            if str_eq(segment.name.as_str(), "insert_resource") {
                check_insert_resource(source, args, *method_span, out);
            } else if str_eq(segment.name.as_str(), "init_resource") {
                check_init_resource(source, segment, *method_span, out);
            } else {
                proof {
                    assert(diag_views(out@) =~= diag_views(out@) + seq![]);
                }
            }
        } else {
            proof {
                assert(diag_views(out@) =~= diag_views(out@) + seq![]);
            }
        }
    }
}

fn event_diagnostic(message: &str, span: Span, event: &str, a: Applicability) -> (d: Diagnostic)
    ensures
        d@ == event_diag(message@, span, event@, a),
{
    let mut replacement = String::from_str("add_event::<");
    replacement.append(event);
    replacement.append(">()");
    let suggestion = Suggestion {
        span,
        msg: String::from_str("inserting an `Events` resource does not fully setup that event"),
        replacement,
        applicability: a,
    };
    let mut suggestions: Vec<Suggestion> = Vec::new();
    suggestions.push(suggestion);
    let d = Diagnostic {
        lint: String::from_str("bevy::insert_event_resource"),
        span,
        message: String::from_str(message),
        help: None,
        suggestions,
    };
    proof {
        assert(d@.suggestions =~= event_diag(message@, span, event@, a).suggestions);
    }
    d
}

fn push_diag(out: &mut Vec<Diagnostic>, d: Diagnostic)
    ensures
        diag_views(final(out)@) == diag_views(old(out)@) + seq![d@],
{
    out.push(d);
    proof {
        assert(diag_views(out@) =~= diag_views(old(out)@) + seq![d@]);
    }
}

/// Checks whether `insert_resource` inserts an `Events<T>`.
pub fn check_insert_resource(source: &str, args: &Vec<Expr>, method_span: Span, out: &mut Vec<Diagnostic>)
    ensures
        diag_views(final(out)@) == diag_views(old(out)@) + insert_resource_spec(source@, args@, method_span),
{
    if args.len() != 1 {
        proof {
            assert(diag_views(out@) =~= diag_views(out@) + seq![]);
        }
        return;
    }
    let ty = &args[0].ty;
    let events_path = paths::events();
    if match_type(ty, &events_path) {
        let mut applicability = Applicability::MachineApplicable;
        let event = extract_ty_event_snippet(source, ty, &mut applicability);
        let d = event_diagnostic(
            "called `App::insert_resource(Events<T>)` instead of `App::add_event::<T>()`",
            method_span,
            event.as_str(),
            applicability,
        );
        push_diag(out, d);
    } else {
        proof {
            assert(diag_views(out@) =~= diag_views(out@) + seq![]);
        }
    }
}

/// The text of `T` for an inferred `Events<T>`; `"T"` where it cannot be had, with
/// `applicability` lowered to `HasPlaceholders`.
pub fn extract_ty_event_snippet(source: &str, events_ty: &Ty, applicability: &mut Applicability) -> (r: String)
    ensures
        (r@, *final(applicability)) == ty_event_snippet_spec(source@, *events_ty, *old(applicability)),
{
    if let TyKind::Adt { args, .. } = &events_ty.kind {
        if args.len() > 0 {
            match &args[0] {
                GenericArg::Type(t) => {
                    return snippet_with_applicability(source, t.span, "T", applicability);
                },
                GenericArg::Lifetime(_) => {},
            }
        }
    }
    downgrade_to_placeholders(applicability);
    String::from_str("T")
}

/// Checks whether `init_resource::<R>` names an `Events<T>` as `R`.
pub fn check_init_resource(source: &str, segment: &PathSegment, method_span: Span, out: &mut Vec<Diagnostic>)
    ensures
        diag_views(final(out)@) == diag_views(old(out)@) + init_resource_spec(source@, *segment, method_span),
{
    if segment.generic_args.len() == 1 {
        if let GenericArg::Type(resource_ty) = &segment.generic_args[0] {
            let events_path = paths::events();
            if match_type(resource_ty, &events_path) {
                let mut applicability = Applicability::MachineApplicable;
                let event = extract_hir_event_snippet(source, resource_ty, &mut applicability);
                let d = event_diagnostic(
                    "called `App::init_resource::<Events<T>>()` instead of `App::add_event::<T>()`",
                    method_span,
                    event.as_str(),
                    applicability,
                );
                push_diag(out, d);
                return;
            }
        }
    }
    proof {
        assert(diag_views(out@) =~= diag_views(out@) + seq![]);
    }
}

/// The text of `T` for a written `Events<T>`; `"T"` where the type does not have
/// that shape or its text cannot be had, with `applicability` lowered to `HasPlaceholders`.
pub fn extract_hir_event_snippet(source: &str, events_ty: &Ty, applicability: &mut Applicability) -> (r: String)
    ensures
        (r@, *final(applicability)) == hir_event_snippet_spec(source@, *events_ty, *old(applicability)),
{
    if let TyKind::Adt { args, .. } = &events_ty.kind {
        if args.len() == 1 {
            if let GenericArg::Type(t) = &args[0] {
                return snippet_with_applicability(source, t.span, "T", applicability);
            }
        }
    }
    downgrade_to_placeholders(applicability);
    String::from_str("T")
}

} // verus!
