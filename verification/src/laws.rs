//! Laws that relate the pipeline's stages, proved once and for all inputs.

use crate::ast::{SpecExpr, SpecTop};
use crate::codegen::{spec_cg_expr, spec_is_op};
use crate::numerals::{
    dec_nat, lemma_dec_nat_digits, lemma_parse_dec_roundtrip, spec_i64_dec, spec_is_digit,
};
use crate::parser::{
    atom_end, lemma_atom_end_all, spec_is_delim, spec_parse_atom, spec_tokenize,
};
use crate::typechecker::{int_params, spec_declare, spec_tc_expr};
use crate::types::SpecTy;
use vstd::prelude::*;

verus! {

/// A digit or minus sign neither opens a token of its own nor separates.
proof fn lemma_literal_chars_plain(c: char)
    requires
        spec_is_digit(c) || c == '-',
    ensures
        !spec_is_delim(c),
        c != '(' && c != ')' && c != '"',
{
}

/// For every 64-bit integer value: its decimal literal text lexes to one
/// atom token, that token parses to the number, the number type-checks to
/// `Int` in every environment, and code generation emits the literal text
/// unchanged.
pub proof fn lemma_int_literal_roundtrip(v: i64, env: Map<Seq<char>, SpecTy>)
    ensures
        spec_tokenize(spec_i64_dec(v), 0) == seq![spec_i64_dec(v)],
        spec_parse_atom(spec_i64_dec(v)) == SpecExpr::Number(v),
        spec_tc_expr(SpecExpr::Number(v), env) == Ok::<SpecTy, Seq<char>>(SpecTy::Int),
        spec_cg_expr(SpecExpr::Number(v), env) == Ok::<Seq<char>, Seq<char>>(spec_i64_dec(v)),
{
    let s = spec_i64_dec(v);
    lemma_parse_dec_roundtrip(v);
    if v < 0 {
        lemma_dec_nat_digits((-(v as int)) as nat);
    } else {
        lemma_dec_nat_digits(v as nat);
    }
    assert forall|k: int| 0 <= k < s.len() implies !spec_is_delim(#[trigger] s[k]) && s[k] != '('
        && s[k] != ')' && s[k] != '"' by {
        if v < 0 && k > 0 {
            let m = (-(v as int)) as nat;
            assert(s[k] == (seq!['-'] + dec_nat(m))[k]);
            assert(s[k] == dec_nat(m)[k - 1]);
            assert(spec_is_digit(s[k]));
        }
        lemma_literal_chars_plain(s[k]);
    }
    // one atom token
    lemma_atom_end_all(s, 1);
    assert(s.subrange(0, s.len() as int) =~= s);
    assert(spec_tokenize(s, s.len() as int) =~= Seq::<Seq<char>>::empty());
    assert(spec_tokenize(s, 0) =~= seq![s]);
    // the atom is a number
    assert(s[0] != '"');
    reveal_strlit("#t");
    reveal_strlit("#f");
    assert(s != "#t"@ && s != "#f"@);
    assert(spec_parse_atom(s) == SpecExpr::Number(v));
}

/// Whether a type is a function over `Int` parameters returning `Int`, as
/// the forward-declaration pass writes it.
pub open spec fn is_provisional_fun(t: SpecTy) -> bool {
    t matches SpecTy::Fun(ps, ret) && ps == int_params(ps.len()) && *ret == SpecTy::Int
}

/// The forward-declaration pass never removes or degrades such a binding.
proof fn lemma_declare_preserves(
    tops: Seq<SpecTop>,
    env: Map<Seq<char>, SpecTy>,
    k: Seq<char>,
)
    requires
        env.contains_key(k),
        is_provisional_fun(env[k]),
    ensures
        spec_declare(tops, env).contains_key(k),
        is_provisional_fun(spec_declare(tops, env)[k]),
    decreases tops.len(),
{
    if tops.len() > 0 {
        match tops[0] {
            SpecTop::Defun(name, params, _) => {
                let env1 = env.insert(
                    name,
                    SpecTy::Fun(int_params(params.len()), Box::new(SpecTy::Int)),
                );
                assert(is_provisional_fun(env1[k]));
                lemma_declare_preserves(tops.drop_first(), env1, k);
            },
            SpecTop::Expr(_) => {
                lemma_declare_preserves(tops.drop_first(), env, k);
            },
        }
    }
}

/// After the forward-declaration pass, every defined function's name is
/// bound to a function type over `Int` parameters returning `Int`, so calls
/// among the definitions — mutual and forward ones included — resolve while
/// their bodies are checked.
pub proof fn lemma_forward_declared(tops: Seq<SpecTop>, env: Map<Seq<char>, SpecTy>, i: int)
    requires
        0 <= i < tops.len(),
        tops[i] is Defun,
    ensures
        spec_declare(tops, env).contains_key(tops[i]->Defun_0),
        is_provisional_fun(spec_declare(tops, env)[tops[i]->Defun_0]),
    decreases tops.len(),
{
    let name = tops[i]->Defun_0;
    match tops[0] {
        SpecTop::Defun(name0, params0, _) => {
            let env1 = env.insert(
                name0,
                SpecTy::Fun(int_params(params0.len()), Box::new(SpecTy::Int)),
            );
            if i == 0 {
                assert(int_params(params0.len()).len() == params0.len());
                assert(is_provisional_fun(env1[name]));
                lemma_declare_preserves(tops.drop_first(), env1, name);
            } else {
                assert(tops.drop_first()[i - 1] == tops[i]);
                lemma_forward_declared(tops.drop_first(), env1, i - 1);
            }
        },
        SpecTop::Expr(_) => {
            assert(tops.drop_first()[i - 1] == tops[i]);
            lemma_forward_declared(tops.drop_first(), env, i - 1);
        },
    }
}

/// A call whose head is a symbol that is no special form and unbound in the
/// environment fails type-checking with the unbound-variable error naming it.
pub proof fn lemma_unbound_head(elts: Seq<SpecExpr>, s: Seq<char>, env: Map<Seq<char>, SpecTy>)
    requires
        elts.len() > 0,
        elts[0] == SpecExpr::Symbol(s),
        s != "print"@ && s != "if"@ && s != "let"@,
        !env.contains_key(s),
    ensures
        spec_tc_expr(SpecExpr::List(elts), env) == Err::<SpecTy, Seq<char>>(
            "Unbound variable: "@ + s,
        ),
{
    assert(spec_tc_expr(elts[0], env) == Err::<SpecTy, Seq<char>>("Unbound variable: "@ + s));
}

/// If such a call nevertheless reaches code generation, it fails there too,
/// with the unknown-function error naming the symbol.
pub proof fn lemma_unknown_head_codegen(
    elts: Seq<SpecExpr>,
    s: Seq<char>,
    env: Map<Seq<char>, SpecTy>,
)
    requires
        elts.len() > 0,
        elts[0] == SpecExpr::Symbol(s),
        s != "print"@ && s != "if"@ && s != "let"@,
        !spec_is_op(s),
        !env.contains_key(s),
    ensures
        spec_cg_expr(SpecExpr::List(elts), env) == Err::<Seq<char>, Seq<char>>(
            "Unknown function: "@ + s,
        ),
{
}

} // verus!
