//! The syntax tree of the source language, together with its ghost model.
//!
//! Executable code works on `Expr` and `TopLevel`, whose leaves hold `String`
//! and `Vec`.  Contracts speak of the ghost counterparts `SpecExpr` and
//! `SpecTop`, in which every name and literal is a `Seq<char>` and every list
//! is a `Seq`.

use vstd::prelude::*;

verus! {

/// Ghost model of an expression.
pub enum SpecExpr {
    Symbol(Seq<char>),
    Number(i64),
    Bool(bool),
    Str(Seq<char>),
    List(Seq<SpecExpr>),
}

/// Ghost model of a top-level form.
pub enum SpecTop {
    Defun(Seq<char>, Seq<Seq<char>>, SpecExpr),
    Expr(SpecExpr),
}

/// A single expression of the source language.
#[derive(Debug, PartialEq)]
pub enum Expr {
    /// A symbol, like `add` or `x`.
    Symbol(String),
    /// A 64-bit integer number.
    Number(i64),
    /// A boolean value (`#t` or `#f`).
    Bool(bool),
    /// A string literal.
    String(String),
    /// A list of expressions, like `(+ 1 2)`.
    List(Vec<Expr>),
}

/// A top-level form: a function definition or a bare expression.
#[derive(Debug, PartialEq)]
pub enum TopLevel {
    /// A function definition: name, parameter names, body.
    Defun(String, Vec<String>, Expr),
    /// An expression to be evaluated.
    Expr(Expr),
}

impl View for Expr {
    type V = SpecExpr;

    open spec fn view(&self) -> SpecExpr
        decreases self,
    {
        match self {
            Expr::Symbol(s) => SpecExpr::Symbol(s@),
            Expr::Number(n) => SpecExpr::Number(*n),
            Expr::Bool(b) => SpecExpr::Bool(*b),
            Expr::String(s) => SpecExpr::Str(s@),
            Expr::List(elts) => SpecExpr::List(exprs_view(elts@)),
        }
    }
}

/// The ghost models of a sequence of expressions, element by element.
pub open spec fn exprs_view(elts: Seq<Expr>) -> Seq<SpecExpr>
    decreases elts,
{
    if elts.len() == 0 {
        Seq::empty()
    } else {
        exprs_view(elts.drop_last()).push(elts.last()@)
    }
}

/// The ghost models of a sequence of parameter names.
pub open spec fn names_view(ps: Seq<String>) -> Seq<Seq<char>> {
    Seq::new(ps.len(), |i: int| ps[i]@)
}

impl View for TopLevel {
    type V = SpecTop;

    open spec fn view(&self) -> SpecTop {
        match self {
            TopLevel::Defun(name, params, body) => SpecTop::Defun(
                name@,
                names_view(params@),
                body@,
            ),
            TopLevel::Expr(e) => SpecTop::Expr(e@),
        }
    }
}

/// The ghost models of a sequence of top-level forms.
pub open spec fn tops_view(ts: Seq<TopLevel>) -> Seq<SpecTop> {
    Seq::new(ts.len(), |i: int| ts[i]@)
}

/// An expression and its ghost model are built from matching constructors.
pub proof fn lemma_expr_view_variant(e: Expr)
    ensures
        (e@ is Symbol) == (e matches Expr::Symbol(_)),
        (e@ is Number) == (e matches Expr::Number(_)),
        (e@ is Bool) == (e matches Expr::Bool(_)),
        (e@ is Str) == (e matches Expr::String(_)),
        (e@ is List) == (e matches Expr::List(_)),
{
    match e {
        Expr::Symbol(_) => {},
        Expr::Number(_) => {},
        Expr::Bool(_) => {},
        Expr::String(_) => {},
        Expr::List(_) => {},
    }
}

/// `exprs_view` is the pointwise view.
pub proof fn lemma_exprs_view(elts: Seq<Expr>)
    ensures
        exprs_view(elts).len() == elts.len(),
        forall|i: int| 0 <= i < elts.len() ==> exprs_view(elts)[i] == #[trigger] elts[i]@,
    decreases elts.len(),
{
    if elts.len() > 0 {
        lemma_exprs_view(elts.drop_last());
        assert(exprs_view(elts) == exprs_view(elts.drop_last()).push(elts.last()@));
        assert forall|i: int| 0 <= i < elts.len() implies exprs_view(elts)[i] == #[trigger] elts[i]@ by {
            if i < elts.len() - 1 {
                assert(elts.drop_last()[i] == elts[i]);
            } else {
                assert(elts.last() == elts[i]);
            }
        }
    }
}

} // verus!
