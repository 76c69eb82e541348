//! One walk over each function of a crate, handing every node to each registered
//! pass that looks at nodes of its kind, in registration order.

use vstd::prelude::*;
use crate::diagnostic::{diag_views, Diagnostic, DiagnosticView};
use crate::hir::{collect_preorder, derefs, preorder, Crate, Expr, ExprKind, FnItem, FnRetTy};
use crate::lints::insert_event_resource::{check_expr_spec, InsertEventResource};
use crate::lints::main_return_without_appexit::{check_fn_spec, MainReturnWithoutAppExit};
use crate::lints::zst_query::{check_ty_spec, ZstQuery};
use crate::ty::{GenericArg, Ty, TyKind};

verus! {

broadcast use vstd::std_specs::vec::group_vec_axioms, vstd::seq::group_seq_axioms;

/// The passes a session can run.
#[derive(Clone, Copy, Debug, PartialEq, Eq, Structural)]
pub enum PassKind {
    InsertEventResource,
    MainReturnWithoutAppExit,
    ZstQuery,
}

pub open spec fn expr_hook(p: PassKind, source: Seq<char>, e: Expr) -> Seq<DiagnosticView> {
    match p {
        PassKind::InsertEventResource => check_expr_spec(source, e),
        _ => seq![],
    }
}

pub open spec fn ty_hook(p: PassKind, source: Seq<char>, t: Ty) -> Seq<DiagnosticView> {
    match p {
        PassKind::ZstQuery => check_ty_spec(source, t),
        _ => seq![],
    }
}

pub open spec fn fn_hook(p: PassKind, item: FnItem) -> Seq<DiagnosticView> {
    match p {
        PassKind::MainReturnWithoutAppExit => check_fn_spec(item),
        _ => seq![],
    }
}

/// What every pass, in order, reports at one expression.
pub open spec fn passes_expr(ps: Seq<PassKind>, source: Seq<char>, e: Expr) -> Seq<DiagnosticView>
    decreases ps.len(),
{
    if ps.len() == 0 {
        seq![]
    } else {
        passes_expr(ps.drop_last(), source, e) + expr_hook(ps.last(), source, e)
    }
}

pub open spec fn passes_ty(ps: Seq<PassKind>, source: Seq<char>, t: Ty) -> Seq<DiagnosticView>
    decreases ps.len(),
{
    if ps.len() == 0 {
        seq![]
    } else {
        passes_ty(ps.drop_last(), source, t) + ty_hook(ps.last(), source, t)
    }
}

pub open spec fn passes_fn(ps: Seq<PassKind>, item: FnItem) -> Seq<DiagnosticView>
    decreases ps.len(),
{
    if ps.len() == 0 {
        seq![]
    } else {
        passes_fn(ps.drop_last(), item) + fn_hook(ps.last(), item)
    }
}

/// The types written at an expression itself, in pre-order: the generic arguments
/// of a method call (`init_resource::<R>`).
pub open spec fn expr_tys(e: Expr) -> Seq<Ty> {
    match e.kind {
        ExprKind::MethodCall { segment, .. } => args_preorder(segment.generic_args@),
        _ => seq![],
    }
}

/// What the passes report over a sequence of expressions: at each, the expression
/// hooks, then the type hooks on the types written there.
pub open spec fn exprs_diags(ps: Seq<PassKind>, source: Seq<char>, es: Seq<Expr>) -> Seq<DiagnosticView>
    decreases es.len(),
{
    if es.len() == 0 {
        seq![]
    } else {
        exprs_diags(ps, source, es.drop_last()) + passes_expr(ps, source, es.last()) + tys_diags(
            ps,
            source,
            expr_tys(es.last()),
        )
    }
}

pub open spec fn tys_diags(ps: Seq<PassKind>, source: Seq<char>, ts: Seq<Ty>) -> Seq<DiagnosticView>
    decreases ts.len(),
{
    if ts.len() == 0 {
        seq![]
    } else {
        tys_diags(ps, source, ts.drop_last()) + passes_ty(ps, source, ts.last())
    }
}

/// Every type inside `t`, `t` first, in pre-order (lifetimes are not types).
pub open spec fn ty_preorder(t: Ty) -> Seq<Ty>
    decreases t,
{
    match t.kind {
        TyKind::Adt { args, .. } => seq![t] + args_preorder(args@),
        TyKind::Ref { inner, .. } => seq![t] + ty_preorder(*inner),
        TyKind::Tuple(elems) => seq![t] + tys_preorder(elems@),
        _ => seq![t],
    }
}

pub open spec fn args_preorder(args: Seq<GenericArg>) -> Seq<Ty>
    decreases args,
{
    if args.len() == 0 {
        seq![]
    } else {
        args_preorder(args.drop_last()) + match args.last() {
            GenericArg::Type(t) => ty_preorder(t),
            GenericArg::Lifetime(_) => seq![],
        }
    }
}

pub open spec fn tys_preorder(ts: Seq<Ty>) -> Seq<Ty>
    decreases ts,
{
    if ts.len() == 0 {
        seq![]
    } else {
        tys_preorder(ts.drop_last()) + ty_preorder(ts.last())
    }
}

/// The types written in a function's signature, in pre-order: the inputs, then
/// the return type.
pub open spec fn signature_tys(item: FnItem) -> Seq<Ty> {
    tys_preorder(item.decl.inputs@) + match item.decl.output {
        FnRetTy::Return(t) => ty_preorder(t),
        FnRetTy::DefaultReturn(_) => seq![],
    }
}

/// What the passes report for one function: the function itself, then the types
/// of its signature, then the expressions of its body and the types written in them.
pub open spec fn fn_diags(ps: Seq<PassKind>, source: Seq<char>, item: FnItem) -> Seq<DiagnosticView> {
    passes_fn(ps, item) + tys_diags(ps, source, signature_tys(item)) + exprs_diags(
        ps,
        source,
        preorder(item.body),
    )
}

pub open spec fn fns_diags(ps: Seq<PassKind>, source: Seq<char>, fns: Seq<FnItem>) -> Seq<DiagnosticView>
    decreases fns.len(),
{
    if fns.len() == 0 {
        seq![]
    } else {
        fns_diags(ps, source, fns.drop_last()) + fn_diags(ps, source, fns.last())
    }
}

pub open spec fn ty_derefs(s: Seq<&Ty>) -> Seq<Ty> {
    s.map_values(|r: &Ty| *r)
}

proof fn lemma_ty_derefs_push(s: Seq<&Ty>, t: &Ty)
    ensures
        ty_derefs(s.push(t)) == ty_derefs(s).push(*t),
{
    assert(ty_derefs(s.push(t)) =~= ty_derefs(s).push(*t));
}

/// Appends every type inside `t` to `out`, in pre-order.
pub fn collect_ty_preorder<'a>(t: &'a Ty, out: &mut Vec<&'a Ty>)
    ensures
        ty_derefs(final(out)@) == ty_derefs(old(out)@) + ty_preorder(*t),
    decreases t,
{
    let ghost start = ty_derefs(out@);
    proof {
        lemma_ty_derefs_push(out@, t);
    }
    out.push(t);
    match &t.kind {
        TyKind::Adt { args, .. } => {
            collect_args(args, out);
        },
        TyKind::Ref { inner, .. } => {
            collect_ty_preorder(&**inner, out);
        },
        TyKind::Tuple(elems) => {
            collect_tys(elems, out);
        },
        _ => {},
    }
    proof {
        assert(ty_derefs(out@) =~= start + ty_preorder(*t));
    }
}

fn collect_args<'a>(args: &'a Vec<GenericArg>, out: &mut Vec<&'a Ty>)
    ensures
        ty_derefs(final(out)@) == ty_derefs(old(out)@) + args_preorder(args@),
    decreases args,
{
    let ghost start = ty_derefs(out@);
    let mut i: usize = 0;
    while i < args.len()
        invariant
            0 <= i <= args.len(),
            ty_derefs(out@) == start + args_preorder(args@.take(i as int)),
        decreases args.len() - i,
    {
        proof {
            assert(args@.take(i as int + 1).drop_last() =~= args@.take(i as int));
            assert(args@.take(i as int + 1).last() == args@[i as int]);
        }
        match &args[i] {
            GenericArg::Type(a) => {
                collect_ty_preorder(a, out);
            },
            GenericArg::Lifetime(_) => {},
        }
        i = i + 1;
        proof {
            assert(ty_derefs(out@) =~= start + args_preorder(args@.take(i as int)));
        }
    }
    proof {
        assert(args@.take(i as int) =~= args@);
    }
}

fn collect_tys<'a>(ts: &'a Vec<Ty>, out: &mut Vec<&'a Ty>)
    ensures
        ty_derefs(final(out)@) == ty_derefs(old(out)@) + tys_preorder(ts@),
    decreases ts,
{
    let ghost start = ty_derefs(out@);
    let mut i: usize = 0;
    while i < ts.len()
        invariant
            0 <= i <= ts.len(),
            ty_derefs(out@) == start + tys_preorder(ts@.take(i as int)),
        decreases ts.len() - i,
    {
        proof {
            assert(ts@.take(i as int + 1).drop_last() =~= ts@.take(i as int));
            assert(ts@.take(i as int + 1).last() == ts@[i as int]);
        }
        collect_ty_preorder(&ts[i], out);
        i = i + 1;
        proof {
            assert(ty_derefs(out@) =~= start + tys_preorder(ts@.take(i as int)));
        }
    }
    proof {
        assert(ts@.take(i as int) =~= ts@);
    }
}

/// The ordered passes of a session.
#[derive(Debug)]
pub struct Dispatcher {
    pub passes: Vec<PassKind>,
}

impl Dispatcher {
    pub fn new() -> (r: Dispatcher)
        ensures
            r.passes@.len() == 0,
    {
        Dispatcher { passes: Vec::new() }
    }

    /// Adds a pass after those already registered.
    pub fn register_pass(&mut self, pass: PassKind)
        ensures
            final(self).passes@ == old(self).passes@.push(pass),
    {
        self.passes.push(pass);
    }

    fn run_expr_hooks(&self, source: &str, e: &Expr, out: &mut Vec<Diagnostic>)
        ensures
            diag_views(final(out)@) == diag_views(old(out)@) + passes_expr(self.passes@, source@, *e),
    {
        let ghost start = diag_views(out@);
        let mut i: usize = 0;
        while i < self.passes.len()
            invariant
                0 <= i <= self.passes@.len(),
                diag_views(out@) == start + passes_expr(self.passes@.take(i as int), source@, *e),
            decreases self.passes.len() - i,
        {
            proof {
                assert(self.passes@.take(i as int + 1).drop_last() =~= self.passes@.take(i as int));
            }
            match self.passes[i] {
                PassKind::InsertEventResource => InsertEventResource.check_expr(source, e, out),
                _ => {},
            }
            i = i + 1;
            proof {
                assert(diag_views(out@) =~= start + passes_expr(self.passes@.take(i as int), source@, *e));
            }
        }
        proof {
            assert(self.passes@.take(i as int) =~= self.passes@);
        }
    }

    fn run_ty_hooks(&self, source: &str, t: &Ty, out: &mut Vec<Diagnostic>)
        ensures
            diag_views(final(out)@) == diag_views(old(out)@) + passes_ty(self.passes@, source@, *t),
    {
        let ghost start = diag_views(out@);
        let mut i: usize = 0;
        while i < self.passes.len()
            invariant
                0 <= i <= self.passes@.len(),
                diag_views(out@) == start + passes_ty(self.passes@.take(i as int), source@, *t),
            decreases self.passes.len() - i,
        {
            proof {
                assert(self.passes@.take(i as int + 1).drop_last() =~= self.passes@.take(i as int));
            }
            match self.passes[i] {
                PassKind::ZstQuery => ZstQuery.check_ty(source, t, out),
                _ => {},
            }
            i = i + 1;
            proof {
                assert(diag_views(out@) =~= start + passes_ty(self.passes@.take(i as int), source@, *t));
            }
        }
        proof {
            assert(self.passes@.take(i as int) =~= self.passes@);
        }
    }

    fn run_fn_hooks(&self, item: &FnItem, out: &mut Vec<Diagnostic>)
        ensures
            diag_views(final(out)@) == diag_views(old(out)@) + passes_fn(self.passes@, *item),
    {
        let ghost start = diag_views(out@);
        let mut i: usize = 0;
        while i < self.passes.len()
            invariant
                0 <= i <= self.passes@.len(),
                diag_views(out@) == start + passes_fn(self.passes@.take(i as int), *item),
            decreases self.passes.len() - i,
        {
            proof {
                assert(self.passes@.take(i as int + 1).drop_last() =~= self.passes@.take(i as int));
            }
            match self.passes[i] {
                PassKind::MainReturnWithoutAppExit => MainReturnWithoutAppExit.check_fn(item, out),
                _ => {},
            }
            i = i + 1;
            proof {
                assert(diag_views(out@) =~= start + passes_fn(self.passes@.take(i as int), *item));
            }
        }
        proof {
            assert(self.passes@.take(i as int) =~= self.passes@);
        }
    }

    fn run_tys_hooks(&self, source: &str, tys: &Vec<&Ty>, out: &mut Vec<Diagnostic>)
        ensures
            diag_views(final(out)@) == diag_views(old(out)@) + tys_diags(self.passes@, source@, ty_derefs(tys@)),
    {
        let ghost start = diag_views(out@);
        let mut i: usize = 0;
        while i < tys.len()
            invariant
                0 <= i <= tys@.len(),
                diag_views(out@) == start + tys_diags(self.passes@, source@, ty_derefs(tys@).take(i as int)),
            decreases tys.len() - i,
        {
            proof {
                assert(ty_derefs(tys@).take(i as int + 1).drop_last() =~= ty_derefs(tys@).take(i as int));
                assert(ty_derefs(tys@).take(i as int + 1).last() == *tys@[i as int]);
            }
            self.run_ty_hooks(source, tys[i], out);
            i = i + 1;
        }
        proof {
            assert(ty_derefs(tys@).take(i as int) =~= ty_derefs(tys@));
        }
    }

    /// Checks one function: the function, then its signature's types, then its
    /// body's expressions with the types written at each, all in pre-order.
    pub fn check_fn_item(&self, source: &str, item: &FnItem, out: &mut Vec<Diagnostic>)
        ensures
            diag_views(final(out)@) == diag_views(old(out)@) + fn_diags(self.passes@, source@, *item),
    {
        let ghost start = diag_views(out@);
        self.run_fn_hooks(item, out);
        let ghost after_fn = diag_views(out@);

        let mut tys: Vec<&Ty> = Vec::new();
        collect_tys(&item.decl.inputs, &mut tys);
        if let FnRetTy::Return(t) = &item.decl.output {
            collect_ty_preorder(t, &mut tys);
        }
        proof {
            assert(ty_derefs(tys@) =~= signature_tys(*item));
        }
        self.run_tys_hooks(source, &tys, out);
        let ghost after_tys = diag_views(out@);

        let mut exprs: Vec<&Expr> = Vec::new();
        collect_preorder(&item.body, &mut exprs);
        proof {
            assert(derefs(exprs@) =~= preorder(item.body));
        }
        let mut j: usize = 0;
        while j < exprs.len()
            invariant
                0 <= j <= exprs@.len(),
                derefs(exprs@) == preorder(item.body),
                diag_views(out@) == after_tys + exprs_diags(self.passes@, source@, derefs(exprs@).take(j as int)),
            decreases exprs.len() - j,
        {
            proof {
                assert(derefs(exprs@).take(j as int + 1).drop_last() =~= derefs(exprs@).take(j as int));
                assert(derefs(exprs@).take(j as int + 1).last() == *exprs@[j as int]);
            }
            self.run_expr_hooks(source, exprs[j], out);
            let mut written: Vec<&Ty> = Vec::new();
            if let ExprKind::MethodCall { segment, .. } = &exprs[j].kind {
                collect_args(&segment.generic_args, &mut written);
            }
            proof {
                assert(ty_derefs(written@) =~= expr_tys(*exprs@[j as int]));
            }
            self.run_tys_hooks(source, &written, out);
            j = j + 1;
        }
        proof {
            assert(derefs(exprs@).take(j as int) =~= preorder(item.body));
            assert(diag_views(out@) =~= start + fn_diags(self.passes@, source@, *item));
        }
    }

    /// Checks a whole crate, function by function in source order, and returns
    /// every finding in the order it was made.
    pub fn check_crate(&self, krate: &Crate) -> (r: Vec<Diagnostic>)
        ensures
            diag_views(r@) == fns_diags(self.passes@, krate.source@, krate.fns@),
    {
        let mut out: Vec<Diagnostic> = Vec::new();
        let mut i: usize = 0;
        proof {
            assert(diag_views(out@) =~= seq![]);
        }
        while i < krate.fns.len()
            invariant
                0 <= i <= krate.fns@.len(),
                diag_views(out@) == fns_diags(self.passes@, krate.source@, krate.fns@.take(i as int)),
            decreases krate.fns.len() - i,
        {
            proof {
                assert(krate.fns@.take(i as int + 1).drop_last() =~= krate.fns@.take(i as int));
                assert(krate.fns@.take(i as int + 1).last() == krate.fns@[i as int]);
            }
            self.check_fn_item(krate.source.as_str(), &krate.fns[i], &mut out);
            i = i + 1;
        }
        proof {
            assert(krate.fns@.take(i as int) =~= krate.fns@);
        }
        out
    }
}

} // verus!
