use lispc::ast::Expr;
use lispc::codegen::{codegen_expr, codegen_toplevels};
use lispc::parser::parse;
use lispc::typechecker::base_env;
use lispc::types::Type;

fn check(src: &str) -> Result<Type, String> {
    let tops = parse(src).unwrap();
    let mut env = base_env();
    lispc::typechecker::typecheck_toplevels(&tops, &mut env)
}

fn compile(src: &str) -> Result<String, String> {
    let tops = parse(src)?;
    let mut env = base_env();
    lispc::typechecker::typecheck_toplevels(&tops, &mut env)?;
    codegen_toplevels(&tops, &env)
}

#[test]
fn integer_literal_roundtrip() {
    assert_eq!(check("42"), Ok(Type::Int));
    assert_eq!(compile("42").unwrap(), "fn main() {\n    42;\n}");
    assert_eq!(check("-7"), Ok(Type::Int));
    assert_eq!(compile("-7").unwrap(), "fn main() {\n    -7;\n}");
}

#[test]
fn defun_and_call_typecheck_and_codegen() {
    let src = "(defun add (x y) (+ x y)) (add 2 3)";
    assert_eq!(check(src), Ok(Type::Int));
    assert_eq!(
        compile(src).unwrap(),
        "fn add(x: i64, y: i64) -> i64 { (x + y) }\n\nfn main() {\n    add(2, 3);\n}"
    );
}

#[test]
fn if_typechecks_and_rejects() {
    assert_eq!(check("(if #t 1 2)"), Ok(Type::Int));
    assert_eq!(
        check("(if 1 2 3)"),
        Err("Condition in 'if' must be a boolean".to_string())
    );
    assert_eq!(
        check("(if #t 1 \"x\")"),
        Err("Branches of 'if' must have the same type".to_string())
    );
    assert_eq!(
        compile("(if #t 1 2)").unwrap(),
        "fn main() {\n    if true { 1 } else { 2 };\n}"
    );
}

#[test]
fn let_sequential_scoping() {
    let src = "(let ((x 1) (y (+ x 1))) (+ x y))";
    assert_eq!(check(src), Ok(Type::Int));
    assert_eq!(
        compile(src).unwrap(),
        "fn main() {\n    { let x = 1;\nlet y = (x + 1);\n(x + y) };\n}"
    );
}

#[test]
fn unbound_function_is_rejected_before_codegen() {
    assert_eq!(check("(foo 1)"), Err("Unbound variable: foo".to_string()));
    assert_eq!(
        compile("(foo 1)"),
        Err("Unbound variable: foo".to_string())
    );
}

#[test]
fn mutual_recursion_resolves() {
    let src = "(defun even (n) (if (= n 0) 1 (odd (- n 1)))) \
               (defun odd (n) (if (= n 0) 0 (even (- n 1)))) \
               (even 10)";
    assert_eq!(check(src), Ok(Type::Int));
    let out = compile(src).unwrap();
    assert!(out.contains("fn even(n: i64) -> i64"));
    assert!(out.contains("fn odd(n: i64) -> i64"));
}

#[test]
fn early_bare_expression_error_is_superseded() {
    // A type error in a non-final bare expression is overwritten by the
    // outcome of the final one.
    assert_eq!(check("(foo 1) 5"), Ok(Type::Int));
    assert_eq!(check("5 (foo 1)"), Err("Unbound variable: foo".to_string()));
}

#[test]
fn defun_body_error_aborts() {
    assert_eq!(
        check("(defun f (x) (foo x)) 5"),
        Err("Unbound variable: foo".to_string())
    );
}

#[test]
fn inferred_return_types_enter_the_environment() {
    let tops = parse("(defun t () #t)").unwrap();
    let mut env = base_env();
    assert_eq!(
        lispc::typechecker::typecheck_toplevels(&tops, &mut env),
        Ok(Type::Int)
    );
    assert_eq!(
        env.lookup("t"),
        Some(Type::Function(vec![], Box::new(Type::Bool)))
    );
    // Codegen still emits the fixed integer type for every function.
    let out = codegen_toplevels(&tops, &env).unwrap();
    assert!(out.contains("fn t() -> i64 { true }"));
}

#[test]
fn typecheck_error_variants() {
    assert_eq!(check("()"), Err("Cannot typecheck empty list".to_string()));
    assert_eq!(
        check("(print)"),
        Err("'print' takes exactly one argument".to_string())
    );
    assert_eq!(
        check("(print 1 2)"),
        Err("'print' takes exactly one argument".to_string())
    );
    assert_eq!(
        check("(if #t 1)"),
        Err("'if' requires a condition, a then-branch, and an else-branch".to_string())
    );
    assert_eq!(
        check("(let ((x 1)))"),
        Err("'let' requires a list of bindings and a body".to_string())
    );
    assert_eq!(
        check("(let 1 2)"),
        Err("First argument to 'let' must be a list of bindings".to_string())
    );
    assert_eq!(
        check("(let (x) 1)"),
        Err("Each binding in 'let' must be a list".to_string())
    );
    assert_eq!(
        check("(let ((x)) 1)"),
        Err("Each binding in 'let' must be a pair of (symbol value)".to_string())
    );
    assert_eq!(
        check("(let ((1 2)) 3)"),
        Err("First element of a binding pair must be a symbol".to_string())
    );
    assert_eq!(
        check("(+ 1)"),
        Err("Incorrect number of arguments".to_string())
    );
    assert_eq!(
        check("(+ 1 #t)"),
        Err("Type mismatch: expected Int, got Bool".to_string())
    );
    assert_eq!(
        check("(+ + 1)"),
        Err("Type mismatch: expected Int, got Function([Int, Int], Int)".to_string())
    );
    assert_eq!(
        check("(1 2)"),
        Err("First element of list is not a function".to_string())
    );
    assert_eq!(check("x"), Err("Unbound variable: x".to_string()));
}

#[test]
fn print_and_operators_emit() {
    assert_eq!(
        compile("(print 5)").unwrap(),
        "fn main() {\n    { println!(\"{}\", 5); 0 };\n}"
    );
    assert_eq!(
        compile("(= 1 2)").unwrap(),
        "fn main() {\n    (1 == 2);\n}"
    );
    assert_eq!(
        compile("(< 1 2)").unwrap(),
        "fn main() {\n    (1 < 2);\n}"
    );
    assert_eq!(
        compile("(print \"hi\")").unwrap(),
        "fn main() {\n    { println!(\"{}\", \"hi\"); 0 };\n}"
    );
}

#[test]
fn empty_program_emits_bare_entry_point() {
    assert_eq!(compile("").unwrap(), "fn main() {\n    ;\n}");
}

#[test]
fn codegen_error_variants() {
    let env = base_env();
    assert_eq!(
        codegen_expr(&Expr::List(vec![]), &env),
        Err("Cannot generate code for empty list".to_string())
    );
    assert_eq!(
        codegen_expr(
            &Expr::List(vec![Expr::Symbol("bar".to_string()), Expr::Number(1)]),
            &env
        ),
        Err("Unknown function: bar".to_string())
    );
    assert_eq!(
        codegen_expr(
            &Expr::List(vec![Expr::Symbol("+".to_string()), Expr::Number(1)]),
            &env
        ),
        Err("'+' takes exactly two arguments".to_string())
    );
    assert_eq!(
        codegen_expr(&Expr::List(vec![Expr::Number(1), Expr::Number(2)]), &env),
        Err("First element of list is not a function symbol".to_string())
    );
    assert_eq!(
        codegen_expr(&Expr::List(vec![Expr::Symbol("print".to_string())]), &env),
        Err("Malformed 'print' form".to_string())
    );
}

#[test]
fn codegen_renders_numbers_and_booleans() {
    let env = base_env();
    assert_eq!(codegen_expr(&Expr::Number(-42), &env), Ok("-42".to_string()));
    assert_eq!(codegen_expr(&Expr::Number(0), &env), Ok("0".to_string()));
    assert_eq!(
        codegen_expr(&Expr::Number(i64::MIN), &env),
        Ok("-9223372036854775808".to_string())
    );
    assert_eq!(codegen_expr(&Expr::Bool(false), &env), Ok("false".to_string()));
    assert_eq!(
        codegen_expr(&Expr::String("a b".to_string()), &env),
        Ok("\"a b\"".to_string())
    );
}
