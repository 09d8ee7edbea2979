//! The code generator: top-level forms and the checked environment to
//! target-language source text.
//!
//! Each construct is translated structurally: function definitions become
//! integer-typed target functions, bare expressions are collected into one
//! synthesized entry point, and every expression form maps to its target
//! equivalent.  The emitted text is pinned down character by character by the
//! spec functions here.

use crate::ast::{exprs_view, lemma_expr_view_variant, lemma_exprs_view, names_view, tops_view,
    Expr, SpecExpr, SpecTop, TopLevel};
use crate::numerals::{i64_to_string, spec_i64_dec};
use crate::parser::{str_eq, toks_views};
use crate::typechecker::TypeEnv;
use crate::types::SpecTy;
use vstd::prelude::*;
use vstd::string::StringExecFns;

verus! {

/// A built-in binary operator symbol.
pub open spec fn spec_is_op(s: Seq<char>) -> bool {
    s == "+"@ || s == "-"@ || s == "*"@ || s == "/"@ || s == "="@ || s == "<"@ || s == ">"@
}

/// The target operator text: `=` maps to the target equality operator, the
/// rest map unchanged.
pub open spec fn spec_target_op(s: Seq<char>) -> Seq<char> {
    if s == "="@ {
        "=="@
    } else {
        s
    }
}

/// The emitted text of the `let` bindings from index `j` on, each as
/// `let NAME = VALUE;` followed by a line break.  A binding that is not a
/// list, or whose first element is not a symbol, emits nothing; an empty or
/// one-element binding pair with a symbol head is a malformed shape.
pub open spec fn spec_cg_binds(
    binds: Seq<SpecExpr>,
    j: int,
    env: Map<Seq<char>, SpecTy>,
) -> Result<Seq<char>, Seq<char>>
    decreases binds, binds.len() - j,
{
    if j < 0 || j >= binds.len() {
        Ok(Seq::empty())
    } else if binds[j] is List {
        let pair = binds[j]->List_0;
        if pair.len() == 0 {
            Err("Malformed 'let' binding"@)
        } else if pair[0] is Symbol {
            if pair.len() < 2 {
                Err("Malformed 'let' binding"@)
            } else {
                match spec_cg_expr(pair[1], env) {
                    Err(m) => Err(m),
                    Ok(v) => match spec_cg_binds(binds, j + 1, env) {
                        Err(m) => Err(m),
                        Ok(rest) => Ok(
                            "let "@ + pair[0]->Symbol_0 + " = "@ + v + ";"@ + "\n"@ + rest,
                        ),
                    },
                }
            }
        } else {
            spec_cg_binds(binds, j + 1, env)
        }
    } else {
        spec_cg_binds(binds, j + 1, env)
    }
}

/// The comma-separated emitted texts of the call arguments `elts[j..]`.
pub open spec fn spec_cg_call_args(
    elts: Seq<SpecExpr>,
    j: int,
    env: Map<Seq<char>, SpecTy>,
) -> Result<Seq<char>, Seq<char>>
    decreases elts, elts.len() - j,
{
    if j < 0 || j >= elts.len() {
        Ok(Seq::empty())
    } else {
        match spec_cg_expr(elts[j], env) {
            Err(m) => Err(m),
            Ok(a) => match spec_cg_call_args(elts, j + 1, env) {
                Err(m) => Err(m),
                Ok(rest) => Ok(
                    if j == elts.len() - 1 {
                        a
                    } else {
                        a + ", "@ + rest
                    },
                ),
            },
        }
    }
}

/// The emitted text of one expression, or the error message.
pub open spec fn spec_cg_expr(e: SpecExpr, env: Map<Seq<char>, SpecTy>) -> Result<
    Seq<char>,
    Seq<char>,
>
    decreases e, 0int,
{
    match e {
        SpecExpr::Number(n) => Ok(spec_i64_dec(n)),
        SpecExpr::Bool(b) => Ok(
            if b {
                "true"@
            } else {
                "false"@
            },
        ),
        SpecExpr::Str(s) => Ok("\""@ + s + "\""@),
        SpecExpr::Symbol(s) => Ok(s),
        SpecExpr::List(elts) => {
            if elts.len() == 0 {
                Err("Cannot generate code for empty list"@)
            } else if !(elts[0] is Symbol) {
                Err("First element of list is not a function symbol"@)
            } else {
                let s = elts[0]->Symbol_0;
                if s == "print"@ {
                    if elts.len() < 2 {
                        Err("Malformed 'print' form"@)
                    } else {
                        match spec_cg_expr(elts[1], env) {
                            Err(m) => Err(m),
                            Ok(a) => Ok("{ println!(\"{}\", "@ + a + "); 0 }"@),
                        }
                    }
                } else if s == "if"@ {
                    if elts.len() < 4 {
                        Err("Malformed 'if' form"@)
                    } else {
                        match spec_cg_expr(elts[1], env) {
                            Err(m) => Err(m),
                            Ok(c) => match spec_cg_expr(elts[2], env) {
                                Err(m) => Err(m),
                                Ok(t) => match spec_cg_expr(elts[3], env) {
                                    Err(m) => Err(m),
                                    Ok(el) => Ok(
                                        "if "@ + c + " { "@ + t + " } else { "@ + el + " }"@,
                                    ),
                                },
                            },
                        }
                    }
                } else if s == "let"@ {
                    if elts.len() < 2 {
                        Err("Malformed 'let' form"@)
                    } else if !(elts[1] is List) {
                        Err("Invalid let bindings"@)
                    } else {
                        match spec_cg_binds(elts[1]->List_0, 0, env) {
                            Err(m) => Err(m),
                            Ok(stmts) => {
                                if elts.len() < 3 {
                                    Err("Malformed 'let' form"@)
                                } else {
                                    match spec_cg_expr(elts[2], env) {
                                        Err(m) => Err(m),
                                        Ok(b) => Ok("{ "@ + stmts + b + " }"@),
                                    }
                                }
                            },
                        }
                    }
                } else if spec_is_op(s) {
                    if elts.len() != 3 {
                        Err("'"@ + s + "' takes exactly two arguments"@)
                    } else {
                        match spec_cg_expr(elts[1], env) {
                            Err(m) => Err(m),
                            Ok(a1) => match spec_cg_expr(elts[2], env) {
                                Err(m) => Err(m),
                                Ok(a2) => Ok(
                                    "("@ + a1 + " "@ + spec_target_op(s) + " "@ + a2 + ")"@,
                                ),
                            },
                        }
                    }
                } else if env.contains_key(s) {
                    match spec_cg_call_args(elts, 1, env) {
                        Err(m) => Err(m),
                        Ok(astr) => Ok(s + "("@ + astr + ")"@),
                    }
                } else {
                    Err("Unknown function: "@ + s)
                }
            }
        },
    }
}

/// Generates target code from an expression.
pub fn codegen_expr(expr: &Expr, env: &TypeEnv) -> (r: Result<String, String>)
    ensures
        r matches Ok(s) ==> spec_cg_expr(expr@, env@) == Ok::<Seq<char>, Seq<char>>(s@),
        r matches Err(m) ==> (spec_cg_expr(expr@, env@) matches Err(sm) && sm == m@),
    decreases expr, 0int,
{
    match expr {
        Expr::Number(n) => Ok(i64_to_string(*n)),
        Expr::Bool(b) => Ok(
            if *b {
                String::from_str("true")
            } else {
                String::from_str("false")
            },
        ),
        Expr::String(s) => Ok(String::from_str("\"").concat(s.as_str()).concat("\"")),
        Expr::Symbol(s) => Ok(s.clone()),
        Expr::List(elts) => {
            proof {
                lemma_exprs_view(elts@);
            }
            if elts.len() == 0 {
                return Err(String::from_str("Cannot generate code for empty list"));
            }
            proof {
                lemma_expr_view_variant(elts@[0]);
            }
            let s = match &elts[0] {
                Expr::Symbol(s) => s,
                _ => {
                    return Err(String::from_str("First element of list is not a function symbol"));
                },
            };
            if str_eq(s.as_str(), "print") {
                if elts.len() < 2 {
                    return Err(String::from_str("Malformed 'print' form"));
                }
                let a = match codegen_expr(&elts[1], env) {
                    Ok(a) => a,
                    Err(m) => {
                        return Err(m);
                    },
                };
                let mut out = String::from_str("{ println!(\"{}\", ");
                out.append(a.as_str());
                out.append("); 0 }");
                Ok(out)
            } else if str_eq(s.as_str(), "if") {
                if elts.len() < 4 {
                    return Err(String::from_str("Malformed 'if' form"));
                }
                let c = match codegen_expr(&elts[1], env) {
                    Ok(a) => a,
                    Err(m) => {
                        return Err(m);
                    },
                };
                let t = match codegen_expr(&elts[2], env) {
                    Ok(a) => a,
                    Err(m) => {
                        return Err(m);
                    },
                };
                let el = match codegen_expr(&elts[3], env) {
                    Ok(a) => a,
                    Err(m) => {
                        return Err(m);
                    },
                };
                let mut out = String::from_str("if ");
                out.append(c.as_str());
                out.append(" { ");
                out.append(t.as_str());
                out.append(" } else { ");
                out.append(el.as_str());
                out.append(" }");
                Ok(out)
            } else if str_eq(s.as_str(), "let") {
                if elts.len() < 2 {
                    return Err(String::from_str("Malformed 'let' form"));
                }
                proof {
                    lemma_expr_view_variant(elts@[1]);
                }
                let binds = match &elts[1] {
                    Expr::List(bs) => bs,
                    _ => {
                        return Err(String::from_str("Invalid let bindings"));
                    },
                };
                let stmts = match codegen_binds(binds, 0, env) {
                    Ok(st) => st,
                    Err(m) => {
                        return Err(m);
                    },
                };
                if elts.len() < 3 {
                    return Err(String::from_str("Malformed 'let' form"));
                }
                let b = match codegen_expr(&elts[2], env) {
                    Ok(a) => a,
                    Err(m) => {
                        return Err(m);
                    },
                };
                let mut out = String::from_str("{ ");
                out.append(stmts.as_str());
                out.append(b.as_str());
                out.append(" }");
                Ok(out)
            } else if str_eq(s.as_str(), "+") || str_eq(s.as_str(), "-") || str_eq(s.as_str(), "*")
                || str_eq(s.as_str(), "/") || str_eq(s.as_str(), "=") || str_eq(s.as_str(), "<")
                || str_eq(s.as_str(), ">") {
                if elts.len() != 3 {
                    let mut msg = String::from_str("'");
                    msg.append(s.as_str());
                    msg.append("' takes exactly two arguments");
                    return Err(msg);
                }
                let a1 = match codegen_expr(&elts[1], env) {
                    Ok(a) => a,
                    Err(m) => {
                        return Err(m);
                    },
                };
                let a2 = match codegen_expr(&elts[2], env) {
                    Ok(a) => a,
                    Err(m) => {
                        return Err(m);
                    },
                };
                let op = if str_eq(s.as_str(), "=") {
                    String::from_str("==")
                } else {
                    s.clone()
                };
                let mut out = String::from_str("(");
                out.append(a1.as_str());
                out.append(" ");
                out.append(op.as_str());
                out.append(" ");
                out.append(a2.as_str());
                out.append(")");
                Ok(out)
            } else if env.lookup(s.as_str()).is_some() {
                let astr = match codegen_call_args(elts, 1, env) {
                    Ok(a) => a,
                    Err(m) => {
                        return Err(m);
                    },
                };
                let mut out = s.clone();
                out.append("(");
                out.append(astr.as_str());
                out.append(")");
                Ok(out)
            } else {
                Err(String::from_str("Unknown function: ").concat(s.as_str()))
            }
        },
    }
}

/// The emitted parameter list from index `j` on: every parameter has the
/// fixed integer type, comma-separated.
pub open spec fn spec_cg_params(params: Seq<Seq<char>>, j: int) -> Seq<char>
    decreases params.len() - j,
{
    if j < 0 || j >= params.len() {
        Seq::empty()
    } else if j == params.len() - 1 {
        params[j] + ": i64"@
    } else {
        params[j] + ": i64"@ + ", "@ + spec_cg_params(params, j + 1)
    }
}

/// The elements of `parts` from index `j` on, joined by `sep`.
pub open spec fn join_at(parts: Seq<Seq<char>>, j: int, sep: Seq<char>) -> Seq<char>
    decreases parts.len() - j,
{
    if j < 0 || j >= parts.len() {
        Seq::empty()
    } else if j == parts.len() - 1 {
        parts[j]
    } else {
        parts[j] + sep + join_at(parts, j + 1, sep)
    }
}

/// The emitted texts of the forms `tops[j..]`, in source order: the target
/// functions of the `defun`s, and the texts of the bare expressions.
pub open spec fn spec_cg_items(
    tops: Seq<SpecTop>,
    j: int,
    env: Map<Seq<char>, SpecTy>,
) -> Result<(Seq<Seq<char>>, Seq<Seq<char>>), Seq<char>>
    decreases tops.len() - j,
{
    if j < 0 || j >= tops.len() {
        Ok((Seq::empty(), Seq::empty()))
    } else {
        match tops[j] {
            SpecTop::Defun(name, params, body) => {
                match spec_cg_expr(body, env) {
                    Err(m) => Err(m),
                    Ok(bs) => {
                        match spec_cg_items(tops, j + 1, env) {
                            Err(m) => Err(m),
                            Ok(r) => Ok(
                                (
                                    seq![
                                        "fn "@ + name + "("@ + spec_cg_params(params, 0)
                                            + ") -> i64 { "@ + bs + " }"@,
                                    ] + r.0,
                                    r.1,
                                ),
                            ),
                        }
                    },
                }
            },
            SpecTop::Expr(e) => {
                match spec_cg_expr(e, env) {
                    Err(m) => Err(m),
                    Ok(es) => {
                        match spec_cg_items(tops, j + 1, env) {
                            Err(m) => Err(m),
                            Ok(r) => Ok((r.0, seq![es] + r.1)),
                        }
                    },
                }
            },
        }
    }
}

/// The emitted text of a whole program: the target functions in source
/// order, then one synthesized entry point that evaluates every bare
/// expression in source order, all separated by blank lines.
pub open spec fn spec_cg_program(tops: Seq<SpecTop>, env: Map<Seq<char>, SpecTy>) -> Result<
    Seq<char>,
    Seq<char>,
> {
    match spec_cg_items(tops, 0, env) {
        Err(m) => Err(m),
        Ok(r) => Ok(
            join_at(
                r.0.push("fn main() {\n    "@ + join_at(r.1, 0, ";\n    "@) + ";\n}"@),
                0,
                "\n\n"@,
            ),
        ),
    }
}

/// Emits the parameter list of a target function from index `j` on.
fn cg_params(args: &Vec<String>, j: usize) -> (r: String)
    requires
        j <= args@.len(),
    ensures
        r@ == spec_cg_params(names_view(args@), j as int),
    decreases args@.len() - j,
{
    if j >= args.len() {
        return String::new();
    }
    let mut out = args[j].clone();
    out.append(": i64");
    if j < args.len() - 1 {
        out.append(", ");
        let rest = cg_params(args, j + 1);
        out.append(rest.as_str());
    }
    out
}

/// Joins the strings of `parts` from index `j` on with `sep`.
fn join_strings(parts: &Vec<String>, j: usize, sep: &str) -> (r: String)
    requires
        j <= parts@.len(),
    ensures
        r@ == join_at(toks_views(parts@), j as int, sep@),
    decreases parts@.len() - j,
{
    if j >= parts.len() {
        return String::new();
    }
    let mut out = parts[j].clone();
    if j < parts.len() - 1 {
        out.append(sep);
        let rest = join_strings(parts, j + 1, sep);
        out.append(rest.as_str());
    }
    out
}

/// Emits the target functions and bare-expression texts of `toplevels[j..]`.
fn cg_items(toplevels: &[TopLevel], j: usize, env: &TypeEnv) -> (r: Result<
    (Vec<String>, Vec<String>),
    String,
>)
    requires
        j <= toplevels@.len(),
    ensures
        r matches Ok(p) ==> spec_cg_items(tops_view(toplevels@), j as int, env@) == Ok::<
            (Seq<Seq<char>>, Seq<Seq<char>>),
            Seq<char>,
        >((toks_views(p.0@), toks_views(p.1@))),
        r matches Err(m) ==> (spec_cg_items(tops_view(toplevels@), j as int, env@) matches Err(sm)
            && sm == m@),
    decreases toplevels@.len() - j,
{
    let ghost t_all = tops_view(toplevels@);
    if j >= toplevels.len() {
        proof {
            assert(toks_views(Seq::<String>::empty()) =~= Seq::<Seq<char>>::empty());
        }
        return Ok((Vec::new(), Vec::new()));
    }
    proof {
        assert(t_all[j as int] == toplevels@[j as int]@);
    }
    match &toplevels[j] {
        TopLevel::Defun(name, args, body) => {
            let bs = match codegen_expr(body, env) {
                Ok(a) => a,
                Err(m) => {
                    return Err(m);
                },
            };
            let mut fnstr = String::from_str("fn ");
            fnstr.append(name.as_str());
            fnstr.append("(");
            let pstr = cg_params(args, 0);
            fnstr.append(pstr.as_str());
            fnstr.append(") -> i64 { ");
            fnstr.append(bs.as_str());
            fnstr.append(" }");
            let (mut rf, rm) = match cg_items(toplevels, j + 1, env) {
                Ok(p) => p,
                Err(m) => {
                    return Err(m);
                },
            };
            let ghost rfv = rf@;
            let mut f: Vec<String> = Vec::new();
            f.push(fnstr);
            f.append(&mut rf);
            proof {
                assert(toks_views(f@) =~= seq![f@[0]@] + toks_views(rfv));
            }
            Ok((f, rm))
        },
        TopLevel::Expr(e) => {
            let es = match codegen_expr(e, env) {
                Ok(a) => a,
                Err(m) => {
                    return Err(m);
                },
            };
            let (rf, mut rm) = match cg_items(toplevels, j + 1, env) {
                Ok(p) => p,
                Err(m) => {
                    return Err(m);
                },
            };
            let ghost rmv = rm@;
            let mut ms: Vec<String> = Vec::new();
            ms.push(es);
            ms.append(&mut rm);
            proof {
                assert(toks_views(ms@) =~= seq![ms@[0]@] + toks_views(rmv));
            }
            Ok((rf, ms))
        },
    }
}

/// Generates the target text of a whole program.
pub fn codegen_toplevels(toplevels: &[TopLevel], env: &TypeEnv) -> (r: Result<String, String>)
    ensures
        r matches Ok(s) ==> spec_cg_program(tops_view(toplevels@), env@) == Ok::<
            Seq<char>,
            Seq<char>,
        >(s@),
        r matches Err(m) ==> (spec_cg_program(tops_view(toplevels@), env@) matches Err(sm) && sm
            == m@),
{
    let (mut fns, mains) = match cg_items(toplevels, 0, env) {
        Ok(p) => p,
        Err(m) => {
            return Err(m);
        },
    };
    let main_body = join_strings(&mains, 0, ";\n    ");
    let mut main_fn = String::from_str("fn main() {\n    ");
    main_fn.append(main_body.as_str());
    main_fn.append(";\n}");
    let ghost fns_pre = fns@;
    let ghost main_fn_v = main_fn@;
    fns.push(main_fn);
    proof {
        assert(toks_views(fns@) =~= toks_views(fns_pre).push(main_fn_v));
    }
    let out = join_strings(&fns, 0, "\n\n");
    Ok(out)
}

/// Emits the `let` bindings of `binds` from index `j` on.
fn codegen_binds(binds: &Vec<Expr>, j: usize, env: &TypeEnv) -> (r: Result<String, String>)
    requires
        j <= binds@.len(),
    ensures
        r matches Ok(s) ==> spec_cg_binds(exprs_view(binds@), j as int, env@) == Ok::<
            Seq<char>,
            Seq<char>,
        >(s@),
        r matches Err(m) ==> (spec_cg_binds(exprs_view(binds@), j as int, env@) matches Err(sm)
            && sm == m@),
    decreases binds, binds@.len() - j,
{
    proof {
        lemma_exprs_view(binds@);
    }
    if j >= binds.len() {
        return Ok(String::new());
    }
    proof {
        lemma_expr_view_variant(binds@[j as int]);
    }
    let pair = match &binds[j] {
        Expr::List(p) => p,
        _ => {
            return codegen_binds(binds, j + 1, env);
        },
    };
    proof {
        lemma_exprs_view(pair@);
    }
    if pair.len() == 0 {
        return Err(String::from_str("Malformed 'let' binding"));
    }
    proof {
        lemma_expr_view_variant(pair@[0]);
    }
    let name = match &pair[0] {
        Expr::Symbol(s) => s,
        _ => {
            return codegen_binds(binds, j + 1, env);
        },
    };
    if pair.len() < 2 {
        return Err(String::from_str("Malformed 'let' binding"));
    }
    let v = match codegen_expr(&pair[1], env) {
        Ok(a) => a,
        Err(m) => {
            return Err(m);
        },
    };
    let rest = match codegen_binds(binds, j + 1, env) {
        Ok(a) => a,
        Err(m) => {
            return Err(m);
        },
    };
    let mut out = String::from_str("let ");
    out.append(name.as_str());
    out.append(" = ");
    out.append(v.as_str());
    out.append(";");
    out.append("\n");
    out.append(rest.as_str());
    Ok(out)
}

/// Emits the call arguments `elts[j..]`, comma-separated.
fn codegen_call_args(elts: &Vec<Expr>, j: usize, env: &TypeEnv) -> (r: Result<String, String>)
    requires
        1 <= j <= elts@.len(),
    ensures
        r matches Ok(s) ==> spec_cg_call_args(exprs_view(elts@), j as int, env@) == Ok::<
            Seq<char>,
            Seq<char>,
        >(s@),
        r matches Err(m) ==> (spec_cg_call_args(exprs_view(elts@), j as int, env@) matches Err(sm)
            && sm == m@),
    decreases elts, elts@.len() - j,
{
    proof {
        lemma_exprs_view(elts@);
    }
    if j >= elts.len() {
        return Ok(String::new());
    }
    let a = match codegen_expr(&elts[j], env) {
        Ok(a) => a,
        Err(m) => {
            return Err(m);
        },
    };
    let rest = match codegen_call_args(elts, j + 1, env) {
        Ok(r) => r,
        Err(m) => {
            return Err(m);
        },
    };
    if j == elts.len() - 1 {
        Ok(a)
    } else {
        let mut out = a;
        out.append(", ");
        out.append(rest.as_str());
        Ok(out)
    }
}

} // verus!
