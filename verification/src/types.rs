//! The types of the source language and their ghost model.

use vstd::prelude::*;
use vstd::string::StrSliceExecFns;
use vstd::string::StringExecFns;

verus! {

/// Ghost model of a type: parameter lists as `Seq`.
#[verifier::ext_equal]
pub enum SpecTy {
    Int,
    Bool,
    Str,
    Fun(Seq<SpecTy>, Box<SpecTy>),
}

/// A type of the source language.
#[derive(Debug, PartialEq)]
pub enum Type {
    /// The 64-bit integer type.
    Int,
    /// The boolean type.
    Bool,
    /// The string type.
    String,
    /// A function type, with a list of argument types and a return type.
    Function(Vec<Type>, Box<Type>),
}

impl View for Type {
    type V = SpecTy;

    open spec fn view(&self) -> SpecTy
        decreases self,
    {
        match self {
            Type::Int => SpecTy::Int,
            Type::Bool => SpecTy::Bool,
            Type::String => SpecTy::Str,
            Type::Function(ps, ret) => SpecTy::Fun(tys_view(ps@), Box::new((**ret)@)),
        }
    }
}

/// The ghost models of a sequence of types, element by element.
pub open spec fn tys_view(ts: Seq<Type>) -> Seq<SpecTy>
    decreases ts,
{
    if ts.len() == 0 {
        Seq::empty()
    } else {
        tys_view(ts.drop_last()).push(ts.last()@)
    }
}

/// `tys_view` is the pointwise view.
pub proof fn lemma_tys_view(ts: Seq<Type>)
    ensures
        tys_view(ts).len() == ts.len(),
        forall|i: int| 0 <= i < ts.len() ==> tys_view(ts)[i] == #[trigger] ts[i]@,
    decreases ts.len(),
{
    if ts.len() > 0 {
        lemma_tys_view(ts.drop_last());
        assert(tys_view(ts) == tys_view(ts.drop_last()).push(ts.last()@));
        assert forall|i: int| 0 <= i < ts.len() implies tys_view(ts)[i] == #[trigger] ts[i]@ by {
            if i < ts.len() - 1 {
                assert(ts.drop_last()[i] == ts[i]);
            } else {
                assert(ts.last() == ts[i]);
            }
        }
    }
}

/// A type and its ghost model are built from matching constructors.
pub proof fn lemma_type_view_variant(t: Type)
    ensures
        (t@ is Int) == (t matches Type::Int),
        (t@ is Bool) == (t matches Type::Bool),
        (t@ is Str) == (t matches Type::String),
        (t@ is Fun) == (t matches Type::Function(_, _)),
{
    match t {
        Type::Int => {},
        Type::Bool => {},
        Type::String => {},
        Type::Function(_, _) => {},
    }
}

/// How a type prints in error messages: `Int`, `Bool`, `String`, or
/// `Function([...], ...)` with the parameter types comma-separated.
pub open spec fn spec_ty_str(t: SpecTy) -> Seq<char>
    decreases t, 0int,
{
    match t {
        SpecTy::Int => "Int"@,
        SpecTy::Bool => "Bool"@,
        SpecTy::Str => "String"@,
        SpecTy::Fun(ps, ret) => "Function(["@ + spec_ty_list_str(ps, 0) + "], "@ + spec_ty_str(
            *ret,
        ) + ")"@,
    }
}

/// The comma-separated renderings of the types of `ps` from index `j` on.
pub open spec fn spec_ty_list_str(ps: Seq<SpecTy>, j: int) -> Seq<char>
    decreases ps, ps.len() - j,
{
    if j < 0 || j >= ps.len() {
        Seq::empty()
    } else if j == ps.len() - 1 {
        spec_ty_str(ps[j])
    } else {
        spec_ty_str(ps[j]) + ", "@ + spec_ty_list_str(ps, j + 1)
    }
}

/// Renders a type as error messages show it.
pub fn type_to_string(t: &Type) -> (r: String)
    ensures
        r@ == spec_ty_str(t@),
    decreases t, 0int,
{
    match t {
        Type::Int => String::from_str("Int"),
        Type::Bool => String::from_str("Bool"),
        Type::String => String::from_str("String"),
        Type::Function(ps, ret) => {
            let mut s = String::from_str("Function([");
            let mid = tys_to_string(ps, 0);
            s.append(mid.as_str());
            s.append("], ");
            let rs = type_to_string(&**ret);
            s.append(rs.as_str());
            s.append(")");
            s
        },
    }
}

/// Renders the types of `ps` from index `j` on, comma-separated.
fn tys_to_string(ps: &Vec<Type>, j: usize) -> (r: String)
    requires
        j <= ps@.len(),
    ensures
        r@ == spec_ty_list_str(tys_view(ps@), j as int),
    decreases ps, ps@.len() - j,
{
    proof {
        lemma_tys_view(ps@);
    }
    if j >= ps.len() {
        String::new()
    } else {
        let first = type_to_string(&ps[j]);
        if j == ps.len() - 1 {
            first
        } else {
            let mut s = first;
            s.append(", ");
            let rest = tys_to_string(ps, j + 1);
            s.append(rest.as_str());
            s
        }
    }
}

impl Type {
    /// Structural equality of two types.
    pub fn type_eq(&self, other: &Type) -> (r: bool)
        ensures
            r == (self@ == other@),
        decreases self, 0int,
    {
        match (self, other) {
            (Type::Int, Type::Int) => true,
            (Type::Bool, Type::Bool) => true,
            (Type::String, Type::String) => true,
            (Type::Function(ps1, r1), Type::Function(ps2, r2)) => {
                proof {
                    lemma_tys_view(ps1@);
                    lemma_tys_view(ps2@);
                }
                if ps1.len() != ps2.len() {
                    return false;
                }
                let pseq = tys_all_eq(ps1, ps2, 0);
                let req = (&**r1).type_eq(&**r2);
                proof {
                    if pseq && req {
                        assert forall|j: int| 0 <= j < ps1@.len() implies tys_view(ps1@)[j]
                            == tys_view(ps2@)[j] by {
                            assert(ps1@[j]@ == ps2@[j]@);
                        }
                        assert(tys_view(ps1@) =~= tys_view(ps2@));
                        assert(self@ == other@);
                    }
                    if !(pseq && req) {
                        assert(self@ != other@);
                    }
                }
                pseq && req
            },
            _ => false,
        }
    }

    /// An independent copy with the same ghost model.
    pub fn dup(&self) -> (r: Type)
        ensures
            r@ == self@,
        decreases self, 0int,
    {
        match self {
            Type::Int => Type::Int,
            Type::Bool => Type::Bool,
            Type::String => Type::String,
            Type::Function(ps, ret) => {
                let mut out: Vec<Type> = Vec::new();
                dup_tys_into(ps, 0, &mut out);
                let rd = (&**ret).dup();
                proof {
                    lemma_tys_view(ps@);
                    lemma_tys_view(out@);
                    assert forall|j: int| 0 <= j < ps@.len() implies tys_view(out@)[j]
                        == tys_view(ps@)[j] by {
                        assert(out@[j]@ == ps@[j]@);
                    }
                    assert(tys_view(out@) =~= tys_view(ps@));
                }
                Type::Function(out, Box::new(rd))
            },
        }
    }
}

/// Element-wise structural equality of two type sequences, from index `i` on.
fn tys_all_eq(a: &Vec<Type>, b: &Vec<Type>, i: usize) -> (r: bool)
    requires
        a@.len() == b@.len(),
        i <= a@.len(),
    ensures
        r == (forall|j: int| i <= j < a@.len() ==> #[trigger] a@[j]@ == b@[j]@),
    decreases a, a@.len() - i,
{
    if i == a.len() {
        true
    } else {
        let hd = a[i].type_eq(&b[i]);
        if !hd {
            false
        } else {
            tys_all_eq(a, b, i + 1)
        }
    }
}

/// Copies the elements of `a` from index `i` on onto the end of `out`.
fn dup_tys_into(a: &Vec<Type>, i: usize, out: &mut Vec<Type>)
    requires
        i <= a@.len(),
    ensures
        final(out)@.len() == old(out)@.len() + a@.len() - i,
        forall|j: int| 0 <= j < old(out)@.len() ==> #[trigger] final(out)@[j] == old(out)@[j],
        forall|j: int|
            old(out)@.len() <= j < final(out)@.len() ==> #[trigger] final(out)@[j]@ == a@[j - old(
                out,
            )@.len() + i]@,
    decreases a, a@.len() - i,
{
    if i < a.len() {
        let d = a[i].dup();
        out.push(d);
        dup_tys_into(a, i + 1, out);
    }
}

} // verus!
