use lispc::ast::{Expr, TopLevel};
use lispc::parser::{parse, parse_atom, parse_expr, parse_toplevel, tokenize};
use lispc::typechecker::{base_env, TypeEnv};
use lispc::types::Type;

fn toks(ts: &[&str]) -> Vec<String> {
    ts.iter().map(|t| t.to_string()).collect()
}

#[test]
fn tokenize_parens_atoms_and_whitespace() {
    assert_eq!(tokenize("(+ 1 2)"), toks(&["(", "+", "1", "2", ")"]));
    assert_eq!(tokenize("  a\n\tb "), toks(&["a", "b"]));
    assert_eq!(tokenize(""), toks(&[]));
    assert_eq!(tokenize("a(b)c"), toks(&["a", "(", "b", ")", "c"]));
}

#[test]
fn tokenize_strings() {
    assert_eq!(tokenize("\"a b\""), toks(&["\"a b\""]));
    assert_eq!(tokenize("(print \"x(y\")"), toks(&["(", "print", "\"x(y\"", ")"]));
    // An unterminated string silently consumes to the end of the input.
    assert_eq!(tokenize("\"abc"), toks(&["\"abc"]));
}

#[test]
fn atoms_classify() {
    assert_eq!(parse_atom("123"), Expr::Number(123));
    assert_eq!(parse_atom("-5"), Expr::Number(-5));
    assert_eq!(parse_atom("+7"), Expr::Number(7));
    assert_eq!(parse_atom("#t"), Expr::Bool(true));
    assert_eq!(parse_atom("#f"), Expr::Bool(false));
    assert_eq!(parse_atom("\"hi\""), Expr::String("hi".to_string()));
    assert_eq!(parse_atom("foo"), Expr::Symbol("foo".to_string()));
    // Out of range for a 64-bit integer: falls back to a symbol.
    assert_eq!(
        parse_atom("9223372036854775808"),
        Expr::Symbol("9223372036854775808".to_string())
    );
    // A lone quote is not wrapped in matching double quotes.
    assert_eq!(parse_atom("\""), Expr::Symbol("\"".to_string()));
    assert_eq!(parse_atom("9223372036854775807"), Expr::Number(i64::MAX));
    assert_eq!(parse_atom("-9223372036854775808"), Expr::Number(i64::MIN));
}

#[test]
fn parse_builds_trees() {
    let tops = parse("(+ 1 2)").unwrap();
    assert_eq!(
        tops,
        vec![TopLevel::Expr(Expr::List(vec![
            Expr::Symbol("+".to_string()),
            Expr::Number(1),
            Expr::Number(2),
        ]))]
    );
    let tops = parse("(defun id (x) x)").unwrap();
    assert_eq!(
        tops,
        vec![TopLevel::Defun(
            "id".to_string(),
            vec!["x".to_string()],
            Expr::Symbol("x".to_string()),
        )]
    );
}

#[test]
fn parse_errors() {
    assert_eq!(parse("("), Err("Missing ')'".to_string()));
    assert_eq!(parse(")"), Err("Unexpected ')'".to_string()));
    assert_eq!(parse("(defun f)"), Err("Invalid defun form".to_string()));
    assert_eq!(
        parse("(defun 1 (x) x)"),
        Err("Function name must be a symbol".to_string())
    );
    assert_eq!(
        parse("(defun f x x)"),
        Err("Function arguments must be a list of symbols".to_string())
    );
    assert_eq!(
        parse("(defun f (1) x)"),
        Err("Function arguments must be symbols".to_string())
    );
}

#[test]
fn parse_expr_consumes_the_token_stack() {
    // The parser consumes tokens from the tail of the reversed stack.
    let mut stack = toks(&[")", "2", "1", "+", "("]);
    let e = parse_expr(&mut stack).unwrap();
    assert_eq!(
        e,
        Expr::List(vec![
            Expr::Symbol("+".to_string()),
            Expr::Number(1),
            Expr::Number(2),
        ])
    );
    assert!(stack.is_empty());

    let mut stack = toks(&["rest", "42"]);
    assert_eq!(parse_expr(&mut stack).unwrap(), Expr::Number(42));
    assert_eq!(stack, toks(&["rest"]));

    let mut empty: Vec<String> = vec![];
    assert_eq!(
        parse_expr(&mut empty),
        Err("Unexpected end of input".to_string())
    );
}

#[test]
fn parse_toplevel_wraps_bare_expressions() {
    let mut stack = toks(&["5"]);
    assert_eq!(
        parse_toplevel(&mut stack),
        Ok(TopLevel::Expr(Expr::Number(5)))
    );
}

#[test]
fn environment_scoping() {
    let mut env = TypeEnv::new();
    assert_eq!(env.lookup("x"), None);
    env.bind("x".to_string(), Type::Int);
    assert_eq!(env.lookup("x"), Some(Type::Int));
    env.bind("x".to_string(), Type::Bool);
    assert_eq!(env.lookup("x"), Some(Type::Bool));

    let mut child = env.child_scope();
    child.bind("y".to_string(), Type::String);
    child.bind("x".to_string(), Type::Int);
    // Mutations of the child never reach the parent.
    assert_eq!(env.lookup("y"), None);
    assert_eq!(env.lookup("x"), Some(Type::Bool));
    assert_eq!(child.lookup("x"), Some(Type::Int));
    assert_eq!(child.lookup("y"), Some(Type::String));
}

#[test]
fn base_env_holds_the_builtins() {
    let env = base_env();
    let arith = || Type::Function(vec![Type::Int, Type::Int], Box::new(Type::Int));
    let cmp = || Type::Function(vec![Type::Int, Type::Int], Box::new(Type::Bool));
    for op in ["+", "-", "*", "/"] {
        assert_eq!(env.lookup(op), Some(arith()));
    }
    for op in ["=", "<", ">"] {
        assert_eq!(env.lookup(op), Some(cmp()));
    }
    assert_eq!(env.lookup("print"), None);
}
