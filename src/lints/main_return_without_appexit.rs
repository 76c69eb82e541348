//! Flags an entry point that calls `App::run()` but does not return the
//! `AppExit` it yields, so the process exit code says nothing of how the app ended.
//! An entry point that returns some other type is left alone.

use vstd::prelude::*;
use crate::diagnostic::{diag_views, Applicability, Diagnostic, DiagnosticView, Suggestion, SuggestionView};
use crate::hir::{
    collect_preorder, derefs, preorder, preorder_stmts, Expr, ExprKind, FnDecl, FnItem, FnRetTy,
};
use crate::paths;
use crate::text::str_eq;
use crate::ty::{match_type, matches_path, Span, TyKind};

verus! {

/// Where the return type is, when the entry point returns nothing or `()`.
pub open spec fn unit_return_span(decl: FnDecl) -> Option<Span> {
    match decl.output {
        FnRetTy::DefaultReturn(span) => Some(span),
        FnRetTy::Return(t) => match t.kind {
            TyKind::Tuple(elems) => if elems@.len() == 0 {
                Some(t.span)
            } else {
                None
            },
            _ => None,
        },
    }
}

/// `recv.run()` with `recv` an `App`, behind any references.
pub open spec fn is_app_run(e: Expr) -> bool {
    match e.kind {
        ExprKind::MethodCall { segment, receiver, .. } => segment.name@ == "run"@ && matches_path(
            receiver.ty,
            paths::app_path(),
        ),
        _ => false,
    }
}

/// Where a method call's finding goes: the method with its arguments, `run()` of
/// `app.run()`; for any other expression, its own span.
pub open spec fn method_span_of(e: Expr) -> Span {
    match e.kind {
        ExprKind::MethodCall { method_span, .. } => method_span,
        _ => e.span,
    }
}

/// The pre-order position of the body's last statement's expression (`-1` if none).
pub open spec fn tail_index(body: Expr) -> int {
    match body.kind {
        ExprKind::Block { stmts } => if stmts@.len() > 0 {
            1 + preorder_stmts(stmts@.drop_last()).len() as int
        } else {
            -1
        },
        _ => -1,
    }
}

/// The `;` that ends the body's last statement, if it has one.
pub open spec fn tail_semi(body: Expr) -> Option<Span> {
    match body.kind {
        ExprKind::Block { stmts } => if stmts@.len() > 0 {
            stmts@.last().semi
        } else {
            None
        },
        _ => None,
    }
}

pub open spec fn appexit_message() -> Seq<char> {
    "an entrypoint that calls `App::run()` does not return `AppExit`"@
}

/// The finding at a call: return `AppExit`, and drop the `;` that discards the
/// call's value where the call ends the body.
pub open spec fn appexit_diag(call: Span, ret: Span, semi: Option<Span>) -> DiagnosticView {
    DiagnosticView {
        lint: "bevy::main_return_without_appexit"@,
        span: call,
        message: appexit_message(),
        help: None,
        suggestions: seq![
            SuggestionView {
                span: ret,
                msg: "try"@,
                replacement: "-> AppExit"@,
                applicability: Applicability::MaybeIncorrect,
            },
        ] + match semi {
            Some(s) => seq![
                SuggestionView {
                    span: s,
                    msg: "try"@,
                    replacement: ""@,
                    applicability: Applicability::MaybeIncorrect,
                },
            ],
            None => seq![],
        },
    }
}

/// The findings among `exprs`, the body's expressions in pre-order.
pub open spec fn run_call_diags(exprs: Seq<Expr>, ret: Span, tail: int, semi: Option<Span>) -> Seq<DiagnosticView>
    decreases exprs.len(),
{
    if exprs.len() == 0 {
        seq![]
    } else {
        let e = exprs.last();
        run_call_diags(exprs.drop_last(), ret, tail, semi) + if is_app_run(e) {
            seq![appexit_diag(method_span_of(e), ret, if exprs.len() - 1 == tail { semi } else { None })]
        } else {
            seq![]
        }
    }
}

/// What the lint reports for a function.
pub open spec fn check_fn_spec(item: FnItem) -> Seq<DiagnosticView> {
    if !item.is_entry {
        seq![]
    } else {
        match unit_return_span(item.decl) {
            None => seq![],
            Some(ret) => run_call_diags(preorder(item.body), ret, tail_index(item.body), tail_semi(item.body)),
        }
    }
}

/// The lint pass.
pub struct MainReturnWithoutAppExit;

impl MainReturnWithoutAppExit {
    /// Checks one function; appends what it finds to `out`.
    pub fn check_fn(&self, item: &FnItem, out: &mut Vec<Diagnostic>)
        ensures
            diag_views(final(out)@) == diag_views(old(out)@) + check_fn_spec(*item),
    {
        if !item.is_entry {
            proof {
                assert(diag_views(out@) =~= diag_views(out@) + seq![]);
            }
            return;
        }
        let fn_return_span = match &item.decl.output {
            FnRetTy::DefaultReturn(span) => *span,
            FnRetTy::Return(t) => {
                let unit = match &t.kind {
                    TyKind::Tuple(elems) => elems.len() == 0,
                    _ => false,
                };
                if !unit {
                    proof {
                        assert(diag_views(out@) =~= diag_views(out@) + seq![]);
                    }
                    return;
                }
                t.span
            },
        };
        let mut exprs: Vec<&Expr> = Vec::new();
        collect_preorder(&item.body, &mut exprs);
        let mut tail: usize = exprs.len();
        let mut semi: Option<Span> = None;
        if let ExprKind::Block { stmts } = &item.body.kind {
            if stmts.len() > 0 {
                let last = &stmts[stmts.len() - 1];
                let mut last_exprs: Vec<&Expr> = Vec::new();
                collect_preorder(&last.expr, &mut last_exprs);
                proof {
                    assert(stmts@.last() == *last);
                    assert(preorder(item.body) == seq![item.body] + preorder_stmts(stmts@));
                    assert(preorder_stmts(stmts@) == preorder_stmts(stmts@.drop_last()) + preorder(
                        last.expr,
                    ));
                    assert(derefs(exprs@).len() == exprs@.len());
                    assert(derefs(last_exprs@).len() == last_exprs@.len());
                }
                tail = exprs.len() - last_exprs.len();
                semi = last.semi;
            }
        }
        let ghost tail_spec = tail_index(item.body);
        let ghost semi_spec = tail_semi(item.body);
        proof {
            assert(derefs(exprs@) =~= preorder(item.body));
            assert(tail_spec < 0 ==> tail == exprs@.len());
            assert(tail_spec >= 0 ==> tail == tail_spec);
            assert(semi == semi_spec || tail_spec < 0);
        }
        let ghost start = diag_views(out@);
        let mut i: usize = 0;
        while i < exprs.len()
            invariant
                0 <= i <= exprs@.len(),
                derefs(exprs@) == preorder(item.body),
                tail_spec < 0 ==> tail == exprs@.len(),
                tail_spec >= 0 ==> tail == tail_spec,
                tail_spec >= 0 ==> semi == semi_spec,
                diag_views(out@) == start + run_call_diags(
                    derefs(exprs@).take(i as int),
                    fn_return_span,
                    tail_spec,
                    semi_spec,
                ),
            decreases exprs.len() - i,
        {
            let e = exprs[i];
            proof {
                assert(derefs(exprs@).take(i as int + 1).drop_last() =~= derefs(exprs@).take(i as int));
                assert(derefs(exprs@).take(i as int + 1).last() == *e);
            }
            let ghost before = out@;
            proof {
                assert(i == tail <==> i == tail_spec);
            }
            if let Some(method_span) = is_app_run_call(e) {
                let d = appexit_diagnostic(method_span, fn_return_span, if i == tail { semi } else { None });
                out.push(d);
                proof {
                    assert(diag_views(out@) =~= diag_views(before) + seq![d@]);
                }
            }
            i = i + 1;
            proof {
                assert(diag_views(out@) =~= start + run_call_diags(
                    derefs(exprs@).take(i as int),
                    fn_return_span,
                    tail_spec,
                    semi_spec,
                ));
            }
        }
        proof {
            assert(derefs(exprs@).take(i as int) =~= preorder(item.body));
        }
    }
}

/// Where `e` is `recv.run()` on an `App`, the span of its `run()`; otherwise `None`.
pub fn is_app_run_call(e: &Expr) -> (r: Option<Span>)
    ensures
        r is Some <==> is_app_run(*e),
        r is Some ==> r == Some(method_span_of(*e)),
{
    match &e.kind {
        ExprKind::MethodCall { segment, receiver, method_span, .. } => {
            if !str_eq(segment.name.as_str(), "run") {
                return None;
            }
            let app_path = paths::app();
            if match_type(&receiver.ty, &app_path) {
                Some(*method_span)
            } else {
                None
            }
        },
        _ => None,
    }
}

fn appexit_diagnostic(call: Span, ret: Span, semi: Option<Span>) -> (d: Diagnostic)
    ensures
        d@ == appexit_diag(call, ret, semi),
{
    let mut suggestions: Vec<Suggestion> = Vec::new();
    suggestions.push(
        Suggestion {
            span: ret,
            msg: String::from_str("try"),
            replacement: String::from_str("-> AppExit"),
            applicability: Applicability::MaybeIncorrect,
        },
    );
    if let Some(s) = semi {
        suggestions.push(
            Suggestion {
                span: s,
                msg: String::from_str("try"),
                replacement: String::from_str(""),
                applicability: Applicability::MaybeIncorrect,
            },
        );
    }
    let d = Diagnostic {
        lint: String::from_str("bevy::main_return_without_appexit"),
        span: call,
        message: String::from_str("an entrypoint that calls `App::run()` does not return `AppExit`"),
        help: None,
        suggestions,
    };
    proof {
        let want = appexit_diag(call, ret, semi).suggestions;
        match semi {
            Some(s) => {
                assert(want =~= seq![want[0], want[1]]);
            },
            None => {
                assert(want =~= seq![want[0]]);
            },
        }
        assert(d@.suggestions =~= want);
    }
    d
}

} // verus!
