//! The typed program tree: expressions, statements and functions, each
//! expression carrying the type that the front end inferred for it.

use vstd::prelude::*;
use crate::ty::{GenericArg, Span, Ty};

verus! {

broadcast use vstd::std_specs::vec::group_vec_axioms, vstd::seq::group_seq_axioms;

/// The method name of a method call, with the generic arguments written on it
/// (`init_resource::<R>`).
#[derive(Debug)]
pub struct PathSegment {
    pub name: String,
    pub generic_args: Vec<GenericArg>,
}

#[derive(Debug)]
pub enum ExprKind {
    /// `receiver.method::<..>(args)`; `method_span` covers `method::<..>(args)`.
    MethodCall { segment: PathSegment, receiver: Box<Expr>, args: Vec<Expr>, method_span: Span },
    /// `callee(args)`.
    Call { callee: Box<Expr>, args: Vec<Expr> },
    /// `{ stmts }`.
    Block { stmts: Vec<Stmt> },
    /// A leaf: a literal, a path, or a form with no sub-expression of interest.
    Other,
}

#[derive(Debug)]
pub struct Expr {
    pub kind: ExprKind,
    /// The type inferred for the expression.
    pub ty: Ty,
    pub span: Span,
}

/// A statement of a block: an expression and, where it has one, the span of its `;`.
#[derive(Debug)]
pub struct Stmt {
    pub expr: Expr,
    pub semi: Option<Span>,
}

/// The return type as declared.
#[derive(Debug)]
pub enum FnRetTy {
    /// None is written; the span is where one would go.
    DefaultReturn(Span),
    Return(Ty),
}

#[derive(Debug)]
pub struct FnDecl {
    pub inputs: Vec<Ty>,
    pub output: FnRetTy,
}

/// A function of the analysed crate.
#[derive(Debug)]
pub struct FnItem {
    pub name: String,
    /// Whether the front end designated it the program's entry point.
    pub is_entry: bool,
    pub decl: FnDecl,
    pub body: Expr,
}

/// A compilation unit: its source text and its functions in source order.
#[derive(Debug)]
pub struct Crate {
    pub source: String,
    pub fns: Vec<FnItem>,
}

/// Every expression of `e`, in pre-order, children in source order.
pub open spec fn preorder(e: Expr) -> Seq<Expr>
    decreases e,
{
    match e.kind {
        ExprKind::MethodCall { receiver, args, .. } => seq![e] + preorder(*receiver)
            + preorder_all(args@),
        ExprKind::Call { callee, args } => seq![e] + preorder(*callee) + preorder_all(args@),
        ExprKind::Block { stmts } => seq![e] + preorder_stmts(stmts@),
        ExprKind::Other => seq![e],
    }
}

pub open spec fn preorder_all(es: Seq<Expr>) -> Seq<Expr>
    decreases es,
{
    if es.len() == 0 {
        seq![]
    } else {
        preorder_all(es.drop_last()) + preorder(es.last())
    }
}

pub open spec fn preorder_stmts(ss: Seq<Stmt>) -> Seq<Expr>
    decreases ss,
{
    if ss.len() == 0 {
        seq![]
    } else {
        preorder_stmts(ss.drop_last()) + preorder(ss.last().expr)
    }
}

/// What a sequence of references points to.
pub open spec fn derefs(s: Seq<&Expr>) -> Seq<Expr> {
    s.map_values(|r: &Expr| *r)
}

proof fn lemma_derefs_push(s: Seq<&Expr>, e: &Expr)
    ensures
        derefs(s.push(e)) == derefs(s).push(*e),
{
    assert(derefs(s.push(e)) =~= derefs(s).push(*e));
}

/// Appends every expression of `e` to `out`, in pre-order.
pub fn collect_preorder<'a>(e: &'a Expr, out: &mut Vec<&'a Expr>)
    ensures
        derefs(final(out)@) == derefs(old(out)@) + preorder(*e),
    decreases e,
{
    let ghost start = derefs(out@);
    proof {
        lemma_derefs_push(out@, e);
    }
    out.push(e);
    match &e.kind {
        ExprKind::MethodCall { receiver, args, .. } => {
            collect_preorder(&**receiver, out);
            collect_all(args, out);
            proof {
                assert(derefs(out@) =~= start + preorder(*e));
            }
        },
        ExprKind::Call { callee, args } => {
            collect_preorder(&**callee, out);
            collect_all(args, out);
            proof {
                assert(derefs(out@) =~= start + preorder(*e));
            }
        },
        ExprKind::Block { stmts } => {
            collect_stmts(stmts, out);
            proof {
                assert(derefs(out@) =~= start + preorder(*e));
            }
        },
        ExprKind::Other => {
            proof {
                assert(derefs(out@) =~= start + preorder(*e));
            }
        },
    }
}

fn collect_all<'a>(es: &'a Vec<Expr>, out: &mut Vec<&'a Expr>)
    ensures
        derefs(final(out)@) == derefs(old(out)@) + preorder_all(es@),
    decreases es,
{
    let ghost start = derefs(out@);
    let mut i: usize = 0;
    while i < es.len()
        invariant
            0 <= i <= es.len(),
            derefs(out@) == start + preorder_all(es@.take(i as int)),
        decreases es.len() - i,
    {
        proof {
            assert(es@.take(i as int + 1).drop_last() =~= es@.take(i as int));
            assert(es@.take(i as int + 1).last() == es@[i as int]);
        }
        collect_preorder(&es[i], out);
        i = i + 1;
        proof {
            assert(derefs(out@) =~= start + preorder_all(es@.take(i as int)));
        }
    }
    proof {
        assert(es@.take(i as int) =~= es@);
    }
}

fn collect_stmts<'a>(ss: &'a Vec<Stmt>, out: &mut Vec<&'a Expr>)
    ensures
        derefs(final(out)@) == derefs(old(out)@) + preorder_stmts(ss@),
    decreases ss,
{
    let ghost start = derefs(out@);
    let mut i: usize = 0;
    while i < ss.len()
        invariant
            0 <= i <= ss.len(),
            derefs(out@) == start + preorder_stmts(ss@.take(i as int)),
        decreases ss.len() - i,
    {
        proof {
            assert(ss@.take(i as int + 1).drop_last() =~= ss@.take(i as int));
            assert(ss@.take(i as int + 1).last() == ss@[i as int]);
        }
        collect_preorder(&ss[i].expr, out);
        i = i + 1;
        proof {
            assert(derefs(out@) =~= start + preorder_stmts(ss@.take(i as int)));
        }
    }
    proof {
        assert(ss@.take(i as int) =~= ss@);
    }
}

} // verus!
