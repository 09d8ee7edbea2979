//! The type environment and the two-pass whole-program type checker.

use crate::ast::{exprs_view, lemma_expr_view_variant, lemma_exprs_view, names_view, tops_view,
    Expr, SpecExpr, SpecTop, TopLevel};
use crate::parser::str_eq;
use crate::types::{lemma_type_view_variant, lemma_tys_view, spec_ty_str, type_to_string, tys_view,
    SpecTy, Type};
use vstd::prelude::*;
use vstd::string::StringExecFns;

verus! {

/// A type checking environment, which stores the types of variables.
///
/// Bindings live in insertion order; a later binding for the same name wins.
/// The ghost model is the map from names to types.
pub struct TypeEnv {
    entries: Vec<(String, Type)>,
}

/// The map that a sequence of bindings stands for, later entries winning.
pub open spec fn assoc_map(s: Seq<(String, Type)>) -> Map<Seq<char>, SpecTy>
    decreases s.len(),
{
    if s.len() == 0 {
        Map::empty()
    } else {
        assoc_map(s.drop_last()).insert(s.last().0@, s.last().1@)
    }
}

impl View for TypeEnv {
    type V = Map<Seq<char>, SpecTy>;

    closed spec fn view(&self) -> Map<Seq<char>, SpecTy> {
        assoc_map(self.entries@)
    }
}

impl TypeEnv {
    /// The empty environment.
    pub fn new() -> (r: TypeEnv)
        ensures
            r@ == Map::<Seq<char>, SpecTy>::empty(),
    {
        let e = TypeEnv { entries: Vec::new() };
        proof {
            assert(e.entries@.len() == 0);
        }
        e
    }

    /// Inserts or overwrites a binding.
    pub fn bind(&mut self, name: String, ty: Type)
        ensures
            final(self)@ == old(self)@.insert(name@, ty@),
    {
        let ghost pre = self.entries@;
        let ghost k = name@;
        let ghost v = ty@;
        self.entries.push((name, ty));
        proof {
            assert(self.entries@.drop_last() =~= pre);
            assert(self.entries@.last().0@ == k && self.entries@.last().1@ == v);
        }
    }

    /// The type bound to a name, if any.
    pub fn lookup(&self, name: &str) -> (r: Option<Type>)
        ensures
            r matches Some(t) ==> self@.contains_key(name@) && t@ == self@[name@],
            r is None ==> !self@.contains_key(name@),
    {
        let mut i: usize = self.entries.len();
        proof {
            assert(self.entries@.subrange(0, i as int) =~= self.entries@);
        }
        while i > 0
            invariant
                0 <= i <= self.entries@.len(),
                self@.contains_key(name@) == assoc_map(
                    self.entries@.subrange(0, i as int),
                ).contains_key(name@),
                self@.contains_key(name@) ==> self@[name@] == assoc_map(
                    self.entries@.subrange(0, i as int),
                )[name@],
            decreases i,
        {
            i -= 1;
            proof {
                assert(self.entries@.subrange(0, i as int + 1).drop_last() =~= self.entries@
                    .subrange(0, i as int));
                assert(self.entries@.subrange(0, i as int + 1).last() == self.entries@[i as int]);
            }
            if str_eq(self.entries[i].0.as_str(), name) {
                return Some(self.entries[i].1.dup());
            }
        }
        proof {
            assert(self.entries@.subrange(0, 0) =~= Seq::<(String, Type)>::empty());
        }
        None
    }

    /// An independent copy that may be extended without affecting `self`.
    pub fn child_scope(&self) -> (r: TypeEnv)
        ensures
            r@ == self@,
    {
        let mut out: Vec<(String, Type)> = Vec::new();
        let mut i: usize = 0;
        proof {
            assert(self.entries@.subrange(0, 0) =~= Seq::<(String, Type)>::empty());
            assert(out@ =~= Seq::<(String, Type)>::empty());
        }
        while i < self.entries.len()
            invariant
                0 <= i <= self.entries@.len(),
                assoc_map(out@) == assoc_map(self.entries@.subrange(0, i as int)),
            decreases self.entries@.len() - i,
        {
            let ghost pre = out@;
            let name = self.entries[i].0.clone();
            let ty = self.entries[i].1.dup();
            out.push((name, ty));
            proof {
                assert(out@.drop_last() =~= pre);
                assert(self.entries@.subrange(0, i as int + 1).drop_last() =~= self.entries@
                    .subrange(0, i as int));
                assert(self.entries@.subrange(0, i as int + 1).last() == self.entries@[i as int]);
                assert(out@.last().0@ == self.entries@[i as int].0@);
                assert(out@.last().1@ == self.entries@[i as int].1@);
            }
            i += 1;
        }
        proof {
            assert(self.entries@.subrange(0, self.entries@.len() as int) =~= self.entries@);
        }
        TypeEnv { entries: out }
    }
}

/// The type of the built-in arithmetic operators: `Int × Int → Int`.
pub open spec fn spec_arith_ty() -> SpecTy {
    SpecTy::Fun(seq![SpecTy::Int, SpecTy::Int], Box::new(SpecTy::Int))
}

/// The type of the built-in comparison operators: `Int × Int → Bool`.
pub open spec fn spec_cmp_ty() -> SpecTy {
    SpecTy::Fun(seq![SpecTy::Int, SpecTy::Int], Box::new(SpecTy::Bool))
}

/// The environment seeded with the built-in operators before type checking.
pub open spec fn spec_base_env() -> Map<Seq<char>, SpecTy> {
    Map::empty().insert("+"@, spec_arith_ty()).insert("-"@, spec_arith_ty()).insert(
        "*"@,
        spec_arith_ty(),
    ).insert("/"@, spec_arith_ty()).insert("="@, spec_cmp_ty()).insert("<"@, spec_cmp_ty()).insert(
        ">"@,
        spec_cmp_ty(),
    )
}

fn int_pair() -> (r: Vec<Type>)
    ensures
        tys_view(r@) == seq![SpecTy::Int, SpecTy::Int],
{
    let mut ps: Vec<Type> = Vec::new();
    ps.push(Type::Int);
    ps.push(Type::Int);
    proof {
        lemma_tys_view(ps@);
        assert(ps@[0]@ == SpecTy::Int);
        assert(ps@[1]@ == SpecTy::Int);
        assert(tys_view(ps@) =~= seq![SpecTy::Int, SpecTy::Int]);
    }
    ps
}

fn arith_ty() -> (r: Type)
    ensures
        r@ == spec_arith_ty(),
{
    let ps = int_pair();
    let b = Box::new(Type::Int);
    proof {
        assert(*b == Type::Int);
        assert((*b)@ == SpecTy::Int);
    }
    let r = Type::Function(ps, b);
    proof {
        assert(r@ == SpecTy::Fun(seq![SpecTy::Int, SpecTy::Int], Box::new(SpecTy::Int)));
    }
    r
}

fn cmp_ty() -> (r: Type)
    ensures
        r@ == spec_cmp_ty(),
{
    let ps = int_pair();
    let b = Box::new(Type::Bool);
    proof {
        assert(*b == Type::Bool);
        assert((*b)@ == SpecTy::Bool);
    }
    let r = Type::Function(ps, b);
    proof {
        assert(r@ == SpecTy::Fun(seq![SpecTy::Int, SpecTy::Int], Box::new(SpecTy::Bool)));
    }
    r
}

/// The environment holding the built-in operator signatures.
pub fn base_env() -> (r: TypeEnv)
    ensures
        r@ == spec_base_env(),
{
    let mut env = TypeEnv::new();
    env.bind(String::from_str("+"), arith_ty());
    env.bind(String::from_str("-"), arith_ty());
    env.bind(String::from_str("*"), arith_ty());
    env.bind(String::from_str("/"), arith_ty());
    env.bind(String::from_str("="), cmp_ty());
    env.bind(String::from_str("<"), cmp_ty());
    env.bind(String::from_str(">"), cmp_ty());
    env
}

/// The outcome of checking a `let` binding list from index `j` on:
/// the environment extended binding by binding, each value expression
/// checked in the scope that already holds the earlier bindings.
pub open spec fn spec_tc_binds(binds: Seq<SpecExpr>, j: int, env: Map<Seq<char>, SpecTy>) -> Result<
    Map<Seq<char>, SpecTy>,
    Seq<char>,
>
    decreases binds, binds.len() - j,
{
    if j < 0 || j >= binds.len() {
        Ok(env)
    } else if !(binds[j] is List) {
        Err("Each binding in 'let' must be a list"@)
    } else {
        let pair = binds[j]->List_0;
        if pair.len() != 2 {
            Err("Each binding in 'let' must be a pair of (symbol value)"@)
        } else if !(pair[0] is Symbol) {
            Err("First element of a binding pair must be a symbol"@)
        } else {
            match spec_tc_expr(pair[1], env) {
                Err(m) => Err(m),
                Ok(vt) => spec_tc_binds(binds, j + 1, env.insert(pair[0]->Symbol_0, vt)),
            }
        }
    }
}

/// The first fault among the arguments `elts[j..]` checked against the
/// parameter types `ps[j-1..]`, if any.
pub open spec fn spec_tc_args(
    elts: Seq<SpecExpr>,
    j: int,
    ps: Seq<SpecTy>,
    env: Map<Seq<char>, SpecTy>,
) -> Option<Seq<char>>
    decreases elts, elts.len() - j,
{
    if j < 0 || j >= elts.len() {
        None
    } else {
        match spec_tc_expr(elts[j], env) {
            Err(m) => Some(m),
            Ok(at) => {
                if at != ps[j - 1] {
                    Some(
                        "Type mismatch: expected "@ + spec_ty_str(ps[j - 1]) + ", got "@
                            + spec_ty_str(at),
                    )
                } else {
                    spec_tc_args(elts, j + 1, ps, env)
                }
            },
        }
    }
}

/// The type of an expression in an environment, or the error message.
pub open spec fn spec_tc_expr(e: SpecExpr, env: Map<Seq<char>, SpecTy>) -> Result<
    SpecTy,
    Seq<char>,
>
    decreases e, 0int,
{
    match e {
        SpecExpr::Number(_) => Ok(SpecTy::Int),
        SpecExpr::Bool(_) => Ok(SpecTy::Bool),
        SpecExpr::Str(_) => Ok(SpecTy::Str),
        SpecExpr::Symbol(s) => {
            if env.contains_key(s) {
                Ok(env[s])
            } else {
                Err("Unbound variable: "@ + s)
            }
        },
        SpecExpr::List(elts) => {
            if elts.len() == 0 {
                Err("Cannot typecheck empty list"@)
            } else if elts[0] == SpecExpr::Symbol("print"@) {
                if elts.len() != 2 {
                    Err("'print' takes exactly one argument"@)
                } else {
                    match spec_tc_expr(elts[1], env) {
                        Err(m) => Err(m),
                        Ok(_) => Ok(SpecTy::Int),
                    }
                }
            } else if elts[0] == SpecExpr::Symbol("if"@) {
                if elts.len() != 4 {
                    Err("'if' requires a condition, a then-branch, and an else-branch"@)
                } else {
                    match spec_tc_expr(elts[1], env) {
                        Err(m) => Err(m),
                        Ok(ct) => {
                            if ct != SpecTy::Bool {
                                Err("Condition in 'if' must be a boolean"@)
                            } else {
                                match spec_tc_expr(elts[2], env) {
                                    Err(m) => Err(m),
                                    Ok(tt) => {
                                        match spec_tc_expr(elts[3], env) {
                                            Err(m) => Err(m),
                                            Ok(et) => {
                                                if tt != et {
                                                    Err("Branches of 'if' must have the same type"@)
                                                } else {
                                                    Ok(tt)
                                                }
                                            },
                                        }
                                    },
                                }
                            }
                        },
                    }
                }
            } else if elts[0] == SpecExpr::Symbol("let"@) {
                if elts.len() != 3 {
                    Err("'let' requires a list of bindings and a body"@)
                } else if !(elts[1] is List) {
                    Err("First argument to 'let' must be a list of bindings"@)
                } else {
                    match spec_tc_binds(elts[1]->List_0, 0, env) {
                        Err(m) => Err(m),
                        Ok(env2) => spec_tc_expr(elts[2], env2),
                    }
                }
            } else {
                match spec_tc_expr(elts[0], env) {
                    Err(m) => Err(m),
                    Ok(ft) => {
                        if !(ft is Fun) {
                            Err("First element of list is not a function"@)
                        } else if elts.len() - 1 != ft->Fun_0.len() {
                            Err("Incorrect number of arguments"@)
                        } else {
                            match spec_tc_args(elts, 1, ft->Fun_0, env) {
                                Some(m) => Err(m),
                                None => Ok(*ft->Fun_1),
                            }
                        }
                    },
                }
            }
        },
    }
}

/// Type-checks an expression in a given environment.
pub fn typecheck_expr(expr: &Expr, env: &TypeEnv) -> (r: Result<Type, String>)
    ensures
        r matches Ok(t) ==> spec_tc_expr(expr@, env@) == Ok::<SpecTy, Seq<char>>(t@),
        r matches Err(m) ==> (spec_tc_expr(expr@, env@) matches Err(sm) && sm == m@),
    decreases expr, 0int,
{
    match expr {
        Expr::Number(_) => Ok(Type::Int),
        Expr::Bool(_) => Ok(Type::Bool),
        Expr::String(_) => Ok(Type::String),
        Expr::Symbol(s) => {
            match env.lookup(s.as_str()) {
                Some(t) => Ok(t),
                None => Err(String::from_str("Unbound variable: ").concat(s.as_str())),
            }
        },
        Expr::List(elts) => {
            proof {
                lemma_exprs_view(elts@);
            }
            let ghost sv = exprs_view(elts@);
            if elts.len() == 0 {
                return Err(String::from_str("Cannot typecheck empty list"));
            }
            proof {
                lemma_expr_view_variant(elts@[0]);
            }
            let (is_print, is_if, is_let) = match &elts[0] {
                Expr::Symbol(s) => (
                    str_eq(s.as_str(), "print"),
                    str_eq(s.as_str(), "if"),
                    str_eq(s.as_str(), "let"),
                ),
                _ => (false, false, false),
            };
            if is_print {
                if elts.len() != 2 {
                    return Err(String::from_str("'print' takes exactly one argument"));
                }
                match typecheck_expr(&elts[1], env) {
                    Ok(_) => Ok(Type::Int),
                    Err(m) => Err(m),
                }
            } else if is_if {
                if elts.len() != 4 {
                    return Err(
                        String::from_str(
                            "'if' requires a condition, a then-branch, and an else-branch",
                        ),
                    );
                }
                let ct = match typecheck_expr(&elts[1], env) {
                    Ok(t) => t,
                    Err(m) => {
                        return Err(m);
                    },
                };
                proof {
                    lemma_type_view_variant(ct);
                }
                let ct_is_bool = matches!(ct, Type::Bool);
                if !ct_is_bool {
                    return Err(String::from_str("Condition in 'if' must be a boolean"));
                }
                let tt = match typecheck_expr(&elts[2], env) {
                    Ok(t) => t,
                    Err(m) => {
                        return Err(m);
                    },
                };
                let et = match typecheck_expr(&elts[3], env) {
                    Ok(t) => t,
                    Err(m) => {
                        return Err(m);
                    },
                };
                if !tt.type_eq(&et) {
                    return Err(String::from_str("Branches of 'if' must have the same type"));
                }
                Ok(tt)
            } else if is_let {
                if elts.len() != 3 {
                    return Err(String::from_str("'let' requires a list of bindings and a body"));
                }
                proof {
                    lemma_expr_view_variant(elts@[1]);
                }
                let binds = match &elts[1] {
                    Expr::List(bs) => bs,
                    _ => {
                        return Err(
                            String::from_str("First argument to 'let' must be a list of bindings"),
                        );
                    },
                };
                let scope = env.child_scope();
                let env2 = match typecheck_binds(binds, 0, scope) {
                    Ok(e2) => e2,
                    Err(m) => {
                        return Err(m);
                    },
                };
                typecheck_expr(&elts[2], &env2)
            } else {
                let ft = match typecheck_expr(&elts[0], env) {
                    Ok(t) => t,
                    Err(m) => {
                        return Err(m);
                    },
                };
                proof {
                    lemma_type_view_variant(ft);
                }
                match ft {
                    Type::Function(ps, ret) => {
                        proof {
                            lemma_tys_view(ps@);
                        }
                        if elts.len() - 1 != ps.len() {
                            return Err(String::from_str("Incorrect number of arguments"));
                        }
                        match typecheck_args(elts, 1, &ps, env) {
                            Some(m) => Err(m),
                            None => Ok(*ret),
                        }
                    },
                    _ => Err(String::from_str("First element of list is not a function")),
                }
            }
        },
    }
}

/// Checks the arguments `elts[j..]` against the parameter types `ps[j-1..]`,
/// returning the first fault if any.
fn typecheck_args(elts: &Vec<Expr>, j: usize, ps: &Vec<Type>, env: &TypeEnv) -> (r: Option<String>)
    requires
        1 <= j <= elts@.len(),
        ps@.len() == elts@.len() - 1,
    ensures
        r matches Some(m) ==> (spec_tc_args(exprs_view(elts@), j as int, tys_view(ps@), env@)
            matches Some(sm) && sm == m@),
        r is None ==> spec_tc_args(exprs_view(elts@), j as int, tys_view(ps@), env@) is None,
    decreases elts, elts@.len() - j,
{
    proof {
        lemma_exprs_view(elts@);
        lemma_tys_view(ps@);
    }
    if j >= elts.len() {
        return None;
    }
    let at = match typecheck_expr(&elts[j], env) {
        Ok(t) => t,
        Err(m) => {
            return Some(m);
        },
    };
    if !at.type_eq(&ps[j - 1]) {
        let pstr = type_to_string(&ps[j - 1]);
        let astr = type_to_string(&at);
        let mut msg = String::from_str("Type mismatch: expected ");
        msg.append(pstr.as_str());
        msg.append(", got ");
        msg.append(astr.as_str());
        return Some(msg);
    }
    typecheck_args(elts, j + 1, ps, env)
}

/// Checks the bindings of a `let` from index `j` on, extending `env`.
fn typecheck_binds(binds: &Vec<Expr>, j: usize, env: TypeEnv) -> (r: Result<TypeEnv, String>)
    requires
        j <= binds@.len(),
    ensures
        r matches Ok(e2) ==> spec_tc_binds(exprs_view(binds@), j as int, env@) == Ok::<
            Map<Seq<char>, SpecTy>,
            Seq<char>,
        >(e2@),
        r matches Err(m) ==> (spec_tc_binds(exprs_view(binds@), j as int, env@) matches Err(sm)
            && sm == m@),
    decreases binds, binds@.len() - j,
{
    proof {
        lemma_exprs_view(binds@);
    }
    if j >= binds.len() {
        return Ok(env);
    }
    proof {
        lemma_expr_view_variant(binds@[j as int]);
    }
    let pair = match &binds[j] {
        Expr::List(p) => p,
        _ => {
            return Err(String::from_str("Each binding in 'let' must be a list"));
        },
    };
    proof {
        lemma_exprs_view(pair@);
    }
    if pair.len() != 2 {
        return Err(String::from_str("Each binding in 'let' must be a pair of (symbol value)"));
    }
    proof {
        lemma_expr_view_variant(pair@[0]);
    }
    let name = match &pair[0] {
        Expr::Symbol(s) => s,
        _ => {
            return Err(String::from_str("First element of a binding pair must be a symbol"));
        },
    };
    let vt = match typecheck_expr(&pair[1], &env) {
        Ok(t) => t,
        Err(m) => {
            return Err(m);
        },
    };
    let mut env2 = env;
    env2.bind(name.clone(), vt);
    typecheck_binds(binds, j + 1, env2)
}

/// A sequence of `n` `Int` parameter types: every parameter is `Int`.
pub open spec fn int_params(n: nat) -> Seq<SpecTy> {
    Seq::new(n, |i: int| SpecTy::Int)
}

/// Pass one: every function is forward-declared with a provisional
/// `Int × ... × Int → Int` signature, so recursive and forward calls resolve.
pub open spec fn spec_declare(tops: Seq<SpecTop>, env: Map<Seq<char>, SpecTy>) -> Map<
    Seq<char>,
    SpecTy,
>
    decreases tops.len(),
{
    if tops.len() == 0 {
        env
    } else {
        let env1 = match tops[0] {
            SpecTop::Defun(name, params, _) => env.insert(
                name,
                SpecTy::Fun(int_params(params.len()), Box::new(SpecTy::Int)),
            ),
            SpecTop::Expr(_) => env,
        };
        spec_declare(tops.drop_first(), env1)
    }
}

/// The scope of a function body: every parameter bound to `Int`, in order.
pub open spec fn bind_params(env: Map<Seq<char>, SpecTy>, params: Seq<Seq<char>>) -> Map<
    Seq<char>,
    SpecTy,
>
    decreases params.len(),
{
    if params.len() == 0 {
        env
    } else {
        bind_params(env.insert(params[0], SpecTy::Int), params.drop_first())
    }
}

/// Pass two, in source order.  A function body is checked in a child scope
/// with its parameters bound to `Int`; its entry is then rebound with the
/// inferred return type; an error in a body aborts the pass.  A bare
/// expression is checked against the current environment and its outcome
/// overwrites the running last result, error or not.
pub open spec fn spec_check_pass(
    tops: Seq<SpecTop>,
    env: Map<Seq<char>, SpecTy>,
    last: Result<SpecTy, Seq<char>>,
) -> (Map<Seq<char>, SpecTy>, Result<SpecTy, Seq<char>>)
    decreases tops.len(),
{
    if tops.len() == 0 {
        (env, last)
    } else {
        match tops[0] {
            SpecTop::Defun(name, params, body) => {
                match spec_tc_expr(body, bind_params(env, params)) {
                    Err(m) => (env, Err(m)),
                    Ok(rt) => spec_check_pass(
                        tops.drop_first(),
                        env.insert(name, SpecTy::Fun(int_params(params.len()), Box::new(rt))),
                        last,
                    ),
                }
            },
            SpecTop::Expr(e) => spec_check_pass(tops.drop_first(), env, spec_tc_expr(e, env)),
        }
    }
}

/// The environment after type-checking a whole program.
pub open spec fn spec_typecheck_env(tops: Seq<SpecTop>, env0: Map<Seq<char>, SpecTy>) -> Map<
    Seq<char>,
    SpecTy,
> {
    spec_check_pass(tops, spec_declare(tops, env0), Ok(SpecTy::Int)).0
}

/// The overall outcome of type-checking a whole program: the last bare
/// expression's outcome (`Int` if there is none), or the first function-body
/// error.
pub open spec fn spec_typecheck_result(tops: Seq<SpecTop>, env0: Map<Seq<char>, SpecTy>) -> Result<
    SpecTy,
    Seq<char>,
> {
    spec_check_pass(tops, spec_declare(tops, env0), Ok(SpecTy::Int)).1
}

/// The ghost model of a type-checking outcome.
pub open spec fn res_ty_view(r: Result<Type, String>) -> Result<SpecTy, Seq<char>> {
    match r {
        Ok(t) => Ok(t@),
        Err(m) => Err(m@),
    }
}

fn int_param_vec(n: usize) -> (r: Vec<Type>)
    ensures
        tys_view(r@) == int_params(n as nat),
{
    let mut out: Vec<Type> = Vec::new();
    let mut i: usize = 0;
    while i < n
        invariant
            0 <= i <= n,
            out@.len() == i,
            forall|k: int| 0 <= k < i ==> out@[k] == Type::Int,
        decreases n - i,
    {
        out.push(Type::Int);
        i += 1;
    }
    proof {
        lemma_tys_view(out@);
        assert forall|k: int| 0 <= k < n implies tys_view(out@)[k] == int_params(n as nat)[k] by {
            assert(out@[k]@ == SpecTy::Int);
        }
        assert(tys_view(out@) =~= int_params(n as nat));
    }
    out
}

fn provisional_ty(arity: usize) -> (r: Type)
    ensures
        r@ == SpecTy::Fun(int_params(arity as nat), Box::new(SpecTy::Int)),
{
    let tys = int_param_vec(arity);
    let b = Box::new(Type::Int);
    proof {
        assert(*b == Type::Int);
        assert((*b)@ == SpecTy::Int);
    }
    let r = Type::Function(tys, b);
    proof {
        assert(r@ == SpecTy::Fun(int_params(arity as nat), Box::new(SpecTy::Int)));
    }
    r
}

pub fn typecheck_toplevels(toplevels: &[TopLevel], env: &mut TypeEnv) -> (r: Result<Type, String>)
    ensures
        final(env)@ == spec_typecheck_env(tops_view(toplevels@), old(env)@),
        r matches Ok(t) ==> spec_typecheck_result(tops_view(toplevels@), old(env)@) == Ok::<
            SpecTy,
            Seq<char>,
        >(t@),
        r matches Err(m) ==> (spec_typecheck_result(tops_view(toplevels@), old(env)@) matches Err(
            sm,
        ) && sm == m@),
{
    let ghost t_all = tops_view(toplevels@);
    let ghost env0 = env@;
    let n = toplevels.len();
    let mut i: usize = 0;
    proof {
        assert(t_all.skip(0) =~= t_all);
    }
    while i < n
        invariant
            n == toplevels@.len(),
            0 <= i <= n,
            t_all == tops_view(toplevels@),
            spec_declare(t_all, env0) == spec_declare(t_all.skip(i as int), env@),
        decreases n - i,
    {
        let ghost env_pre = env@;
        proof {
            assert(t_all.skip(i as int)[0] == t_all[i as int]);
            assert(t_all.skip(i as int).drop_first() =~= t_all.skip(i as int + 1));
            assert(t_all[i as int] == toplevels@[i as int]@);
        }
        match &toplevels[i] {
            TopLevel::Defun(name, args, _) => {
                let pt = provisional_ty(args.len());
                env.bind(name.clone(), pt);
            },
            TopLevel::Expr(_) => {},
        }
        i += 1;
    }
    proof {
        assert(t_all.skip(n as int) =~= Seq::<SpecTop>::empty());
        assert(env@ == spec_declare(t_all, env0));
    }
    let ghost env1 = env@;
    let mut last: Result<Type, String> = Ok(Type::Int);
    let mut i: usize = 0;
    proof {
        assert(t_all.skip(0) =~= t_all);
        assert(res_ty_view(last) == Ok::<SpecTy, Seq<char>>(SpecTy::Int));
    }
    while i < n
        invariant
            n == toplevels@.len(),
            0 <= i <= n,
            t_all == tops_view(toplevels@),
            env0 == old(env)@,
            env1 == spec_declare(t_all, env0),
            spec_check_pass(t_all, env1, Ok(SpecTy::Int)) == spec_check_pass(
                t_all.skip(i as int),
                env@,
                res_ty_view(last),
            ),
        decreases n - i,
    {
        proof {
            assert(t_all.skip(i as int)[0] == t_all[i as int]);
            assert(t_all.skip(i as int).drop_first() =~= t_all.skip(i as int + 1));
            assert(t_all[i as int] == toplevels@[i as int]@);
        }
        match &toplevels[i] {
            TopLevel::Defun(name, args, body) => {
                let ghost params = names_view(args@);
                let mut scope = env.child_scope();
                let mut k: usize = 0;
                proof {
                    assert(params.skip(0) =~= params);
                }
                while k < args.len()
                    invariant
                        0 <= k <= args@.len(),
                        params == names_view(args@),
                        bind_params(env@, params) == bind_params(scope@, params.skip(k as int)),
                    decreases args@.len() - k,
                {
                    proof {
                        assert(params.skip(k as int)[0] == params[k as int]);
                        assert(params.skip(k as int).drop_first() =~= params.skip(k as int + 1));
                    }
                    scope.bind(args[k].clone(), Type::Int);
                    k += 1;
                }
                proof {
                    assert(params.skip(args@.len() as int) =~= Seq::<Seq<char>>::empty());
                    assert(scope@ == bind_params(env@, params));
                }
                let rt = match typecheck_expr(body, &scope) {
                    Ok(t) => t,
                    Err(m) => {
                        proof {
                            assert(spec_tc_expr(body@, bind_params(env@, params)) matches Err(sm)
                                && sm == m@);
                            assert(spec_check_pass(t_all.skip(i as int), env@, res_ty_view(last))
                                == (env@, Err::<SpecTy, Seq<char>>(m@)));
                        }
                        return Err(m);
                    },
                };
                let tys = int_param_vec(args.len());
                let b = Box::new(rt);
                let ghost rtv = (*b)@;
                let ft = Type::Function(tys, b);
                proof {
                    assert(ft@ == SpecTy::Fun(int_params(args@.len() as nat), Box::new(rtv)));
                }
                env.bind(name.clone(), ft);
            },
            TopLevel::Expr(e) => {
                last = typecheck_expr(e, env);
            },
        }
        i += 1;
    }
    proof {
        assert(t_all.skip(n as int) =~= Seq::<SpecTop>::empty());
    }
    last
}

} // verus!
