//! Semantic types and the matcher that recognises a type by its defining path.

use vstd::prelude::*;

verus! {

broadcast use vstd::std_specs::vec::group_vec_axioms;

/// A region of the analysed source, as character offsets `[lo, hi)`.
#[derive(Clone, Copy, Debug, PartialEq, Eq, Structural)]
pub struct Span {
    pub lo: usize,
    pub hi: usize,
}

/// One generic argument of a nominal type.
#[derive(Debug)]
pub enum GenericArg {
    Lifetime(String),
    Type(Ty),
}

#[derive(Debug)]
pub enum TyKind {
    /// A nominal type: its canonical defining path (after the front end resolved
    /// imports and re-exports) and its generic arguments, lifetimes included.
    Adt { path: Vec<String>, args: Vec<GenericArg> },
    /// `&T` or `&mut T`.
    Ref { mutable: bool, inner: Box<Ty> },
    /// `(A, B, ...)`; the unit type is the empty tuple.
    Tuple(Vec<Ty>),
    /// A generic parameter, named.
    Param(String),
    /// Anything else: a function pointer, an alias the front end left unexpanded, ...
    Other,
}

/// A type as the front end resolved it, with the place where it is written.
#[derive(Debug)]
pub struct Ty {
    pub kind: TyKind,
    pub span: Span,
    /// Size in bytes from the front end's layout query; `None` where the layout
    /// cannot be computed (the type is still generic, say).
    pub size: Option<u64>,
}

/// The type left once every reference layer is taken off.
pub open spec fn peeled(t: Ty) -> Ty
    decreases t,
{
    match t.kind {
        TyKind::Ref { inner, .. } => peeled(*inner),
        _ => t,
    }
}

/// The defining path of a type, where it is nominal.
pub open spec fn def_path(t: Ty) -> Option<Seq<Seq<char>>> {
    match t.kind {
        TyKind::Adt { path, .. } => Some(path.deep_view()),
        _ => None,
    }
}

/// A type is recognised as `path` when, references stripped, it is defined there.
pub open spec fn matches_path(t: Ty, path: Seq<Seq<char>>) -> bool {
    def_path(peeled(t)) == Some(path)
}

/// `outer` is `inner` under exactly `k` reference layers, each shared or mutable.
pub open spec fn ref_layers(outer: Ty, inner: Ty, k: nat) -> bool
    decreases k,
{
    if k == 0 {
        outer == inner
    } else {
        match outer.kind {
            TyKind::Ref { inner: o, .. } => ref_layers(*o, inner, (k - 1) as nat),
            _ => false,
        }
    }
}

/// The `n`th generic argument of a nominal type, where it is a type.
pub open spec fn generic_type_at_spec(t: Ty, n: int) -> Option<Ty> {
    match t.kind {
        TyKind::Adt { args, .. } => if 0 <= n < args@.len() {
            match args@[n] {
                GenericArg::Type(a) => Some(a),
                GenericArg::Lifetime(_) => None,
            }
        } else {
            None
        },
        _ => None,
    }
}

/// The element types of a tuple, or the type itself for any other type.
pub open spec fn detuple_spec(t: Ty) -> Seq<Ty> {
    match t.kind {
        TyKind::Tuple(elems) => elems@,
        _ => seq![t],
    }
}

impl Ty {
    /// Strips every reference layer, shared or mutable; nothing else.
    pub fn peel_refs(&self) -> (r: &Ty)
        ensures
            *r == peeled(*self),
        decreases self,
    {
        match &self.kind {
            TyKind::Ref { inner, .. } => (**inner).peel_refs(),
            _ => self,
        }
    }
}

/// Whether two paths name the same definition: equal segment by segment.
pub fn path_eq(a: &Vec<String>, b: &Vec<String>) -> (r: bool)
    ensures
        r == (a.deep_view() == b.deep_view()),
{
    if a.len() != b.len() {
        proof {
            assert(a.deep_view().len() != b.deep_view().len());
        }
        return false;
    }
    let mut i: usize = 0;
    while i < a.len()
        invariant
            a.len() == b.len(),
            0 <= i <= a.len(),
            forall|j: int| 0 <= j < i ==> a@[j]@ == b@[j]@,
        decreases a.len() - i,
    {
        if a[i] != b[i] {
            proof {
                assert(a.deep_view()[i as int] != b.deep_view()[i as int]);
            }
            return false;
        }
        i = i + 1;
    }
    proof {
        assert(a.deep_view() =~= b.deep_view());
    }
    true
}

/// Whether `ty`, with its references stripped, is the nominal type defined at `path`.
/// Generic arguments play no part.
pub fn match_type(ty: &Ty, path: &Vec<String>) -> (r: bool)
    ensures
        r == matches_path(*ty, path.deep_view()),
{
    let peeled_ty = ty.peel_refs();
    match &peeled_ty.kind {
        TyKind::Adt { path: p, .. } => path_eq(p, path),
        _ => false,
    }
}

/// The `n`th generic argument of `ty` (lifetimes count), when `ty` is nominal and
/// that argument exists and is a type; `None` otherwise.
pub fn generic_type_at(ty: &Ty, n: usize) -> (r: Option<&Ty>)
    ensures
        match r {
            Some(a) => generic_type_at_spec(*ty, n as int) == Some(*a),
            None => generic_type_at_spec(*ty, n as int) is None,
        },
{
    match &ty.kind {
        TyKind::Adt { args, .. } => {
            if n < args.len() {
                match &args[n] {
                    GenericArg::Type(a) => Some(a),
                    GenericArg::Lifetime(_) => None,
                }
            } else {
                None
            }
        },
        _ => None,
    }
}

/// The element types of a tuple type, or `ty` alone for any other type.
pub fn detuple(ty: &Ty) -> (r: Vec<&Ty>)
    ensures
        r@.len() == detuple_spec(*ty).len(),
        forall|i: int| 0 <= i < r@.len() ==> *r@[i] == detuple_spec(*ty)[i],
{
    match &ty.kind {
        TyKind::Tuple(elems) => {
            let mut out: Vec<&Ty> = Vec::new();
            let mut i: usize = 0;
            while i < elems.len()
                invariant
                    0 <= i <= elems.len(),
                    out@.len() == i,
                    forall|j: int| 0 <= j < i ==> *out@[j] == elems@[j],
                decreases elems.len() - i,
            {
                out.push(&elems[i]);
                i = i + 1;
            }
            out
        },
        _ => {
            let mut out: Vec<&Ty> = Vec::new();
            out.push(ty);
            out
        },
    }
}

/// Detupling yields the elements of a tuple in order, and any other type alone.
pub proof fn lemma_detuple_shapes(t: Ty)
    ensures
        !(t.kind is Tuple) ==> detuple_spec(t) == seq![t],
        t.kind matches TyKind::Tuple(elems) ==> detuple_spec(t) == elems@,
{
}

/// Stripping references is idempotent.
pub proof fn lemma_peel_idempotent(t: Ty)
    ensures
        peeled(peeled(t)) == peeled(t),
    decreases t,
{
    match t.kind {
        TyKind::Ref { inner, .. } => lemma_peel_idempotent(*inner),
        _ => {},
    }
}

/// Any number of reference layers, shared or mutable, leaves a type's identity
/// unchanged: the matcher recognises `T`, `&T`, `&mut &T`, ... alike.
pub proof fn lemma_ref_layers_keep_identity(outer: Ty, inner: Ty, k: nat, path: Seq<Seq<char>>)
    requires
        ref_layers(outer, inner, k),
    ensures
        peeled(outer) == peeled(inner),
        matches_path(outer, path) == matches_path(inner, path),
    decreases k,
{
    if k > 0 {
        match outer.kind {
            TyKind::Ref { inner: o, .. } => {
                lemma_ref_layers_keep_identity(*o, inner, (k - 1) as nat, path);
            },
            _ => {},
        }
    }
}

} // verus!
