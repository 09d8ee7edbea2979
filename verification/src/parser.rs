//! Lexer and parser: source text to tokens, tokens to top-level forms.
//!
//! The token stream is handled as a stack: `tokenize` splits the text, the
//! parser reverses the tokens and consumes them from the tail.  Every
//! executable step is proved equal to a spec function over character
//! sequences, so the grammar is pinned down exactly.

use crate::ast::{
    exprs_view, lemma_expr_view_variant, lemma_exprs_view, names_view, tops_view, Expr, SpecExpr,
    SpecTop, TopLevel,
};
use crate::numerals::{parse_i64, spec_parse_i64};
use vstd::prelude::*;
use vstd::string::StrSliceExecFns;
use vstd::string::StringExecFns;

verus! {

/// A whitespace character, as `char::is_whitespace` has it
/// (the Unicode `White_Space` set).
pub open spec fn spec_is_ws(c: char) -> bool {
    (c as u32) == 0x09 || (c as u32) == 0x0A || (c as u32) == 0x0B || (c as u32) == 0x0C || (
    c as u32) == 0x0D || (c as u32) == 0x20 || (c as u32) == 0x85 || (c as u32) == 0xA0 || (
    c as u32) == 0x1680 || (0x2000 <= (c as u32) && (c as u32) <= 0x200A) || (c as u32) == 0x2028
        || (c as u32) == 0x2029 || (c as u32) == 0x202F || (c as u32) == 0x205F || (c as u32)
        == 0x3000
}

fn is_ws(c: char) -> (r: bool)
    ensures
        r == spec_is_ws(c),
{
    let u = c as u32;
    u == 0x09 || u == 0x0A || u == 0x0B || u == 0x0C || u == 0x0D || u == 0x20 || u == 0x85 || u
        == 0xA0 || u == 0x1680 || (0x2000 <= u && u <= 0x200A) || u == 0x2028 || u == 0x2029 || u
        == 0x202F || u == 0x205F || u == 0x3000
}

/// A character that ends an atom: whitespace or a parenthesis.
pub open spec fn spec_is_delim(c: char) -> bool {
    spec_is_ws(c) || c == '(' || c == ')'
}

fn is_delim(c: char) -> (r: bool)
    ensures
        r == spec_is_delim(c),
{
    c == '(' || c == ')' || is_ws(c)
}

/// One past the position of the next `"` at or after `j`, or the text length
/// if none follows: where a string token that opened before `j` ends.
pub open spec fn find_quote(s: Seq<char>, j: int) -> int
    decreases s.len() - j when 0 <= j <= s.len()
{
    if j >= s.len() {
        s.len() as int
    } else if s[j] == '"' {
        j + 1
    } else {
        find_quote(s, j + 1)
    }
}

pub proof fn lemma_find_quote_bounds(s: Seq<char>, j: int)
    requires
        0 <= j <= s.len(),
    ensures
        j <= find_quote(s, j) <= s.len(),
    decreases s.len() - j,
{
    if j < s.len() && s[j] != '"' {
        lemma_find_quote_bounds(s, j + 1);
    }
}

/// The position where an atom that started before `j` ends: the first
/// delimiter at or after `j`, or the text length.
pub open spec fn atom_end(s: Seq<char>, j: int) -> int
    decreases s.len() - j when 0 <= j <= s.len()
{
    if j >= s.len() {
        s.len() as int
    } else if spec_is_delim(s[j]) {
        j
    } else {
        atom_end(s, j + 1)
    }
}

pub proof fn lemma_atom_end_bounds(s: Seq<char>, j: int)
    requires
        0 <= j <= s.len(),
    ensures
        j <= atom_end(s, j) <= s.len(),
    decreases s.len() - j,
{
    if j < s.len() && !spec_is_delim(s[j]) {
        lemma_atom_end_bounds(s, j + 1);
    }
}

/// A run without delimiters is one atom: the atom scan reaches the end.
pub proof fn lemma_atom_end_all(s: Seq<char>, j: int)
    requires
        0 <= j <= s.len(),
        forall|k: int| j <= k < s.len() ==> !spec_is_delim(#[trigger] s[k]),
    ensures
        atom_end(s, j) == s.len(),
    decreases s.len() - j,
{
    if j < s.len() {
        lemma_atom_end_all(s, j + 1);
    }
}

/// The tokens of the text from position `i` on.  A parenthesis is a token of
/// its own; a `"` opens a string token that runs through the next `"`
/// (inclusive) or to the end of the text; whitespace separates; any other
/// character opens an atom token that runs to the next delimiter.
pub open spec fn spec_tokenize(s: Seq<char>, i: int) -> Seq<Seq<char>>
    decreases s.len() - i when 0 <= i <= s.len() via spec_tokenize_dec
{
    if i >= s.len() {
        Seq::empty()
    } else {
        let c = s[i];
        if c == '(' || c == ')' {
            seq![seq![c]] + spec_tokenize(s, i + 1)
        } else if c == '"' {
            seq![s.subrange(i, find_quote(s, i + 1))] + spec_tokenize(s, find_quote(s, i + 1))
        } else if spec_is_ws(c) {
            spec_tokenize(s, i + 1)
        } else {
            seq![s.subrange(i, atom_end(s, i + 1))] + spec_tokenize(s, atom_end(s, i + 1))
        }
    }
}

#[via_fn]
proof fn spec_tokenize_dec(s: Seq<char>, i: int) {
    if 0 <= i < s.len() {
        lemma_find_quote_bounds(s, i + 1);
        lemma_atom_end_bounds(s, i + 1);
    }
}

/// The views of a sequence of tokens.
pub open spec fn toks_views(ts: Seq<String>) -> Seq<Seq<char>> {
    Seq::new(ts.len(), |i: int| ts[i]@)
}

/// Splits the input string into a vector of tokens.
pub fn tokenize(input: &str) -> (r: Vec<String>)
    ensures
        toks_views(r@) == spec_tokenize(input@, 0),
{
    let n = input.unicode_len();
    let mut out: Vec<String> = Vec::new();
    let mut i: usize = 0;
    proof {
        assert(toks_views(out@) + spec_tokenize(input@, 0) =~= spec_tokenize(input@, 0));
    }
    while i < n
        invariant
            n == input@.len(),
            0 <= i <= n,
            spec_tokenize(input@, 0) == toks_views(out@) + spec_tokenize(input@, i as int),
        decreases n - i,
    {
        let ghost s = input@;
        let c = input.get_char(i);
        if c == '(' || c == ')' {
            let tok = String::from_str(input.substring_char(i, i + 1));
            proof {
                assert(tok@ =~= seq![c]);
                assert(spec_tokenize(s, i as int) == seq![seq![c]] + spec_tokenize(
                    s,
                    i as int + 1,
                ));
                assert(toks_views(out@.push(tok)) =~= toks_views(out@).push(tok@));
                assert(toks_views(out@.push(tok)) + spec_tokenize(s, i as int + 1) =~= toks_views(
                    out@,
                ) + spec_tokenize(s, i as int));
            }
            out.push(tok);
            i += 1;
        } else if c == '"' {
            let mut j = i + 1;
            while j < n && input.get_char(j) != '"'
                invariant
                    n == input@.len(),
                    i + 1 <= j <= n,
                    find_quote(input@, i as int + 1) == find_quote(input@, j as int),
                decreases n - j,
            {
                j += 1;
            }
            let e = if j < n {
                j + 1
            } else {
                j
            };
            proof {
                assert(find_quote(s, i as int + 1) == e);
            }
            let tok = String::from_str(input.substring_char(i, e));
            proof {
                assert(tok@ == s.subrange(i as int, e as int));
                assert(spec_tokenize(s, i as int) == seq![s.subrange(i as int, e as int)]
                    + spec_tokenize(s, e as int));
                assert(toks_views(out@.push(tok)) =~= toks_views(out@).push(tok@));
                assert(toks_views(out@.push(tok)) + spec_tokenize(s, e as int) =~= toks_views(out@)
                    + spec_tokenize(s, i as int));
            }
            out.push(tok);
            i = e;
        } else if is_ws(c) {
            proof {
                assert(spec_tokenize(s, i as int) == spec_tokenize(s, i as int + 1));
            }
            i += 1;
        } else {
            let mut j = i + 1;
            while j < n && !is_delim(input.get_char(j))
                invariant
                    n == input@.len(),
                    i + 1 <= j <= n,
                    atom_end(input@, i as int + 1) == atom_end(input@, j as int),
                decreases n - j,
            {
                j += 1;
            }
            proof {
                assert(atom_end(s, i as int + 1) == j);
            }
            let tok = String::from_str(input.substring_char(i, j));
            proof {
                assert(tok@ == s.subrange(i as int, j as int));
                assert(spec_tokenize(s, i as int) == seq![s.subrange(i as int, j as int)]
                    + spec_tokenize(s, j as int));
                assert(toks_views(out@.push(tok)) =~= toks_views(out@).push(tok@));
                assert(toks_views(out@.push(tok)) + spec_tokenize(s, j as int) =~= toks_views(out@)
                    + spec_tokenize(s, i as int));
            }
            out.push(tok);
            i = j;
        }
    }
    proof {
        assert(spec_tokenize(input@, n as int) =~= Seq::<Seq<char>>::empty());
        assert(toks_views(out@) + spec_tokenize(input@, n as int) =~= toks_views(out@));
    }
    out
}

/// Character-sequence equality of two string slices.
pub fn str_eq(a: &str, b: &str) -> (r: bool)
    ensures
        r == (a@ == b@),
{
    let n = a.unicode_len();
    let m = b.unicode_len();
    if n != m {
        return false;
    }
    let mut i: usize = 0;
    while i < n
        invariant
            n == a@.len() == b@.len(),
            0 <= i <= n,
            forall|j: int| 0 <= j < i ==> a@[j] == b@[j],
        decreases n - i,
    {
        if a.get_char(i) != b.get_char(i) {
            return false;
        }
        i += 1;
    }
    proof {
        assert(a@ =~= b@);
    }
    true
}

/// Whether a token is the single character `c`.
fn is_one_char(tok: &str, c: char) -> (r: bool)
    ensures
        r == (tok@ == seq![c]),
{
    if tok.unicode_len() != 1 {
        return false;
    }
    let c0 = tok.get_char(0);
    proof {
        if c0 == c {
            assert(tok@ =~= seq![c]);
        }
    }
    c0 == c
}

/// The expression an atom token stands for: a quoted token is a string
/// literal with the quotes stripped, `#t` and `#f` are the booleans, a token
/// that reads as an `i64` is a number, and anything else is a symbol.
pub open spec fn spec_parse_atom(t: Seq<char>) -> SpecExpr {
    if t.len() >= 2 && t[0] == '"' && t[t.len() - 1] == '"' {
        SpecExpr::Str(t.subrange(1, t.len() - 1))
    } else if t == "#t"@ {
        SpecExpr::Bool(true)
    } else if t == "#f"@ {
        SpecExpr::Bool(false)
    } else if spec_parse_i64(t) is Some {
        SpecExpr::Number(spec_parse_i64(t)->0)
    } else {
        SpecExpr::Symbol(t)
    }
}

/// Parsing one expression off a token stack (the next token is the last
/// element): the expression and the remaining stack, or the error message.
pub open spec fn spec_parse_expr(toks: Seq<Seq<char>>) -> Result<
    (SpecExpr, Seq<Seq<char>>),
    Seq<char>,
>
    decreases toks.len(), 0int,
{
    if toks.len() == 0 {
        Err("Unexpected end of input"@)
    } else {
        let t = toks.last();
        let rest = toks.drop_last();
        if t == seq!['('] {
            match spec_parse_list(rest) {
                Ok(q) => Ok((SpecExpr::List(q.0), q.1)),
                Err(m) => Err(m),
            }
        } else if t == seq![')'] {
            Err("Unexpected ')'"@)
        } else {
            Ok((spec_parse_atom(t), rest))
        }
    }
}

/// Parsing list elements until the matching `)`, which is consumed.
pub open spec fn spec_parse_list(toks: Seq<Seq<char>>) -> Result<
    (Seq<SpecExpr>, Seq<Seq<char>>),
    Seq<char>,
>
    decreases toks.len(), 1int,
{
    if toks.len() == 0 {
        Err("Missing ')'"@)
    } else if toks.last() == seq![')'] {
        Ok((Seq::empty(), toks.drop_last()))
    } else {
        match spec_parse_expr(toks) {
            Ok(p) => {
                if p.1.len() < toks.len() {
                    match spec_parse_list(p.1) {
                        Ok(q) => Ok((seq![p.0] + q.0, q.1)),
                        Err(m) => Err(m),
                    }
                } else {
                    // never reached: parsing consumes at least one token
                    Err("Missing ')'"@)
                }
            },
            Err(m) => Err(m),
        }
    }
}

/// Parsing always consumes at least one token when it succeeds.
pub proof fn lemma_parse_consumes(toks: Seq<Seq<char>>)
    ensures
        spec_parse_expr(toks) matches Ok(p) ==> p.1.len() < toks.len(),
        spec_parse_list(toks) matches Ok(q) ==> q.1.len() < toks.len(),
    decreases toks.len(),
{
    if toks.len() > 0 {
        lemma_parse_consumes(toks.drop_last());
        if toks.last() != seq![')'] {
            match spec_parse_expr(toks) {
                Ok(p) => {
                    lemma_parse_consumes(p.1);
                },
                Err(_) => {},
            }
        }
    }
}

/// The views of the first `end` tokens of the stack.
pub open spec fn prefix_views(ts: Seq<String>, end: int) -> Seq<Seq<char>> {
    toks_views(ts).subrange(0, end)
}

/// Appends already-parsed elements in front of a list-parse outcome.
pub open spec fn list_compose(
    pre: Seq<SpecExpr>,
    r: Result<(Seq<SpecExpr>, Seq<Seq<char>>), Seq<char>>,
) -> Result<(Seq<SpecExpr>, Seq<Seq<char>>), Seq<char>> {
    match r {
        Ok(q) => Ok((pre + q.0, q.1)),
        Err(m) => Err(m),
    }
}

/// Parses one expression from the first `end` tokens of the stack, returning
/// the result and the new stack height.
fn parse_expr_at(tokens: &Vec<String>, end: usize) -> (r: (Result<Expr, String>, usize))
    requires
        end <= tokens@.len(),
    ensures
        r.1 <= end,
        r.0 matches Ok(e) ==> spec_parse_expr(prefix_views(tokens@, end as int)) == Ok::<
            (SpecExpr, Seq<Seq<char>>),
            Seq<char>,
        >((e@, prefix_views(tokens@, r.1 as int))),
        r.0 matches Err(m) ==> (spec_parse_expr(prefix_views(tokens@, end as int)) matches Err(sm)
            && sm == m@),
    decreases end,
{
    let ghost p_end = prefix_views(tokens@, end as int);
    if end == 0 {
        proof {
            assert(p_end =~= Seq::<Seq<char>>::empty());
        }
        return (Err(String::from_str("Unexpected end of input")), 0);
    }
    proof {
        assert(p_end.len() == end);
        assert(p_end.last() == tokens@[end - 1]@);
        assert(p_end.drop_last() =~= prefix_views(tokens@, end as int - 1));
    }
    if is_one_char(tokens[end - 1].as_str(), '(') {
        let ghost p_open = prefix_views(tokens@, end as int - 1);
        let mut list: Vec<Expr> = Vec::new();
        let mut cur: usize = end - 1;
        proof {
            assert(exprs_view(list@) =~= Seq::<SpecExpr>::empty());
            match spec_parse_list(p_open) {
                Ok(q) => {
                    assert(exprs_view(list@) + q.0 =~= q.0);
                },
                Err(_) => {},
            }
            assert(spec_parse_list(p_open) == list_compose(
                exprs_view(list@),
                spec_parse_list(prefix_views(tokens@, cur as int)),
            ));
        }
        while cur > 0 && !is_one_char(tokens[cur - 1].as_str(), ')')
            invariant
                1 <= end <= tokens@.len(),
                0 <= cur <= end - 1,
                p_open == prefix_views(tokens@, end as int - 1),
                p_end == prefix_views(tokens@, end as int),
                p_end.len() == end,
                p_end.last() == seq!['('],
                p_end.drop_last() == p_open,
                spec_parse_list(p_open) == list_compose(
                    exprs_view(list@),
                    spec_parse_list(prefix_views(tokens@, cur as int)),
                ),
            decreases cur,
        {
            let ghost p_cur = prefix_views(tokens@, cur as int);
            proof {
                assert(p_cur.len() == cur);
                assert(p_cur.last() == tokens@[cur - 1]@);
            }
            let (r0, ne) = parse_expr_at(tokens, cur);
            match r0 {
                Ok(e) => {
                    proof {
                        lemma_parse_consumes(p_cur);
                        assert(prefix_views(tokens@, ne as int).len() == ne);
                        assert(ne < cur);
                        assert(spec_parse_list(p_cur) == list_compose(
                            seq![e@],
                            spec_parse_list(prefix_views(tokens@, ne as int)),
                        ));
                        assert(list@.push(e).drop_last() =~= list@);
                        assert(list@.push(e).last() == e);
                        assert(exprs_view(list@.push(e)) == exprs_view(list@).push(e@));
                        assert(exprs_view(list@).push(e@) =~= exprs_view(list@) + seq![e@]);
                        match spec_parse_list(prefix_views(tokens@, ne as int)) {
                            Ok(q) => {
                                assert((exprs_view(list@) + seq![e@]) + q.0 =~= exprs_view(list@)
                                    + (seq![e@] + q.0));
                            },
                            Err(_) => {},
                        }
                    }
                    list.push(e);
                    cur = ne;
                },
                Err(m) => {
                    proof {
                        assert(spec_parse_list(p_open) matches Err(sm) && sm == m@);
                        assert(spec_parse_expr(p_end) matches Err(sm) && sm == m@);
                    }
                    return (Err(m), cur);
                },
            }
        }
        if cur == 0 {
            proof {
                assert(prefix_views(tokens@, 0) =~= Seq::<Seq<char>>::empty());
                assert(spec_parse_list(prefix_views(tokens@, 0)) == Err::<
                    (Seq<SpecExpr>, Seq<Seq<char>>),
                    Seq<char>,
                >("Missing ')'"@));
                assert(spec_parse_expr(p_end) matches Err(sm) && sm == "Missing ')'"@);
            }
            return (Err(String::from_str("Missing ')'")), 0);
        }
        proof {
            let p_cur = prefix_views(tokens@, cur as int);
            assert(p_cur.len() == cur);
            assert(p_cur.last() == tokens@[cur - 1]@);
            assert(p_cur.last() == seq![')']);
            assert(p_cur.drop_last() =~= prefix_views(tokens@, cur as int - 1));
            assert(spec_parse_list(p_cur) == Ok::<(Seq<SpecExpr>, Seq<Seq<char>>), Seq<char>>(
                (Seq::empty(), prefix_views(tokens@, cur as int - 1)),
            ));
            assert(exprs_view(list@) + Seq::<SpecExpr>::empty() =~= exprs_view(list@));
            assert(spec_parse_list(p_open) == Ok::<(Seq<SpecExpr>, Seq<Seq<char>>), Seq<char>>(
                (exprs_view(list@), prefix_views(tokens@, cur as int - 1)),
            ));
        }
        (Ok(Expr::List(list)), cur - 1)
    } else if is_one_char(tokens[end - 1].as_str(), ')') {
        (Err(String::from_str("Unexpected ')'")), end - 1)
    } else {
        let a = parse_atom(tokens[end - 1].as_str());
        (Ok(a), end - 1)
    }
}

/// Parses a sequence of tokens into an `Expr`, consuming them from the tail.
pub fn parse_expr(tokens: &mut Vec<String>) -> (r: Result<Expr, String>)
    ensures
        final(tokens)@.len() <= old(tokens)@.len(),
        r matches Ok(e) ==> final(tokens)@.len() < old(tokens)@.len(),
        r matches Ok(e) ==> spec_parse_expr(toks_views(old(tokens)@)) == Ok::<
            (SpecExpr, Seq<Seq<char>>),
            Seq<char>,
        >((e@, toks_views(final(tokens)@))),
        r matches Err(m) ==> (spec_parse_expr(toks_views(old(tokens)@)) matches Err(sm) && sm
            == m@),
{
    let n = tokens.len();
    let (r, ne) = parse_expr_at(tokens, n);
    proof {
        assert(prefix_views(tokens@, n as int) =~= toks_views(tokens@));
        lemma_parse_consumes(toks_views(tokens@));
        assert(prefix_views(tokens@, ne as int).len() == ne);
    }
    let ghost pre = tokens@;
    tokens.truncate(ne);
    proof {
        assert(toks_views(tokens@) =~= prefix_views(pre, ne as int));
    }
    r
}

/// Parses an atomic token (a number, boolean, string, or symbol).
pub fn parse_atom(token: &str) -> (e: Expr)
    ensures
        e@ == spec_parse_atom(token@),
{
    let n = token.unicode_len();
    if n >= 2 && token.get_char(0) == '"' && token.get_char(n - 1) == '"' {
        let inner = token.substring_char(1, n - 1);
        return Expr::String(String::from_str(inner));
    }
    if str_eq(token, "#t") {
        return Expr::Bool(true);
    }
    if str_eq(token, "#f") {
        return Expr::Bool(false);
    }
    match parse_i64(token) {
        Some(v) => Expr::Number(v),
        None => Expr::Symbol(String::from_str(token)),
    }
}

/// Whether an expression is a list whose head is the symbol `defun`.
pub open spec fn is_defun_form(e: SpecExpr) -> bool {
    e matches SpecExpr::List(elts) && elts.len() > 0 && elts[0] == SpecExpr::Symbol("defun"@)
}

pub open spec fn all_symbols(ps: Seq<SpecExpr>) -> bool {
    forall|i: int| 0 <= i < ps.len() ==> (#[trigger] ps[i]) is Symbol
}

/// The parameter names of a `defun` parameter list of symbols.
pub open spec fn spec_defun_params(ps: Seq<SpecExpr>) -> Seq<Seq<char>> {
    Seq::new(ps.len(), |i: int| ps[i]->Symbol_0)
}

/// Parsing one top-level form: a well-shaped `defun` list becomes a function
/// definition; a `defun` list of the wrong shape is a parse error; any other
/// expression is a bare top-level expression.
pub open spec fn spec_parse_toplevel(toks: Seq<Seq<char>>) -> Result<
    (SpecTop, Seq<Seq<char>>),
    Seq<char>,
> {
    match spec_parse_expr(toks) {
        Err(m) => Err(m),
        Ok(p) => {
            let e = p.0;
            if is_defun_form(e) {
                let elts = e->List_0;
                if elts.len() != 4 {
                    Err("Invalid defun form"@)
                } else if !(elts[1] is Symbol) {
                    Err("Function name must be a symbol"@)
                } else if !(elts[2] is List) {
                    Err("Function arguments must be a list of symbols"@)
                } else if !all_symbols(elts[2]->List_0) {
                    Err("Function arguments must be symbols"@)
                } else {
                    Ok(
                        (
                            SpecTop::Defun(
                                elts[1]->Symbol_0,
                                spec_defun_params(elts[2]->List_0),
                                elts[3],
                            ),
                            p.1,
                        ),
                    )
                }
            } else {
                Ok((SpecTop::Expr(e), p.1))
            }
        },
    }
}

/// Parses one top-level form off the token stack.
pub fn parse_toplevel(tokens: &mut Vec<String>) -> (r: Result<TopLevel, String>)
    ensures
        final(tokens)@.len() <= old(tokens)@.len(),
        r matches Ok(t) ==> final(tokens)@.len() < old(tokens)@.len(),
        r matches Ok(t) ==> spec_parse_toplevel(toks_views(old(tokens)@)) == Ok::<
            (SpecTop, Seq<Seq<char>>),
            Seq<char>,
        >((t@, toks_views(final(tokens)@))),
        r matches Err(m) ==> (spec_parse_toplevel(toks_views(old(tokens)@)) matches Err(sm) && sm
            == m@),
{
    let expr = match parse_expr(tokens) {
        Ok(e) => e,
        Err(m) => {
            return Err(m);
        },
    };
    proof {
        lemma_expr_view_variant(expr);
    }
    let is_defun = match &expr {
        Expr::List(list) => {
            proof {
                lemma_exprs_view(list@);
                if list@.len() > 0 {
                    lemma_expr_view_variant(list@[0]);
                }
            }
            if list.len() > 0 {
                match &list[0] {
                    Expr::Symbol(s) => str_eq(s.as_str(), "defun"),
                    _ => false,
                }
            } else {
                false
            }
        },
        _ => false,
    };
    if !is_defun {
        return Ok(TopLevel::Expr(expr));
    }
    match expr {
        Expr::List(mut list) => {
            let ghost l0 = list@;
            proof {
                lemma_exprs_view(l0);
                lemma_expr_view_variant(l0[1]);
                lemma_expr_view_variant(l0[2]);
            }
            if list.len() != 4 {
                return Err(String::from_str("Invalid defun form"));
            }
            let body = list.pop().unwrap();
            let params_e = list.pop().unwrap();
            let name_e = list.pop().unwrap();
            proof {
                assert(body == l0[3] && params_e == l0[2] && name_e == l0[1]);
            }
            let name = match name_e {
                Expr::Symbol(s) => s,
                _ => {
                    return Err(String::from_str("Function name must be a symbol"));
                },
            };
            let params_list = match params_e {
                Expr::List(ps) => ps,
                _ => {
                    return Err(String::from_str("Function arguments must be a list of symbols"));
                },
            };
            let params = match symbols_to_names(&params_list) {
                Ok(ps) => ps,
                Err(m) => {
                    return Err(m);
                },
            };
            Ok(TopLevel::Defun(name, params, body))
        },
        _ => {
            proof {
                assert(false);
            }
            Err(String::new())
        },
    }
}

/// The parameter names of a `defun` parameter list, or the error when some
/// parameter is not a symbol.
fn symbols_to_names(ps: &Vec<Expr>) -> (r: Result<Vec<String>, String>)
    ensures
        r matches Ok(names) ==> all_symbols(exprs_view(ps@)) && names_view(names@)
            == spec_defun_params(exprs_view(ps@)),
        r matches Err(m) ==> !all_symbols(exprs_view(ps@)) && m@
            == "Function arguments must be symbols"@,
{
    let mut names: Vec<String> = Vec::new();
    let mut i: usize = 0;
    proof {
        lemma_exprs_view(ps@);
    }
    while i < ps.len()
        invariant
            0 <= i <= ps@.len(),
            names@.len() == i,
            forall|j: int|
                0 <= j < i ==> (#[trigger] exprs_view(ps@)[j]) is Symbol && names_view(names@)[j]
                    == exprs_view(ps@)[j]->Symbol_0,
            exprs_view(ps@).len() == ps@.len(),
            forall|j: int| 0 <= j < ps@.len() ==> exprs_view(ps@)[j] == #[trigger] ps@[j]@,
        decreases ps@.len() - i,
    {
        proof {
            lemma_expr_view_variant(ps@[i as int]);
        }
        match &ps[i] {
            Expr::Symbol(s) => {
                names.push(s.clone());
            },
            _ => {
                return Err(String::from_str("Function arguments must be symbols"));
            },
        }
        i += 1;
    }
    proof {
        assert(names_view(names@) =~= spec_defun_params(exprs_view(ps@)));
    }
    Ok(names)
}

/// Appends already-parsed forms in front of a program-parse outcome.
pub open spec fn parse_compose(pre: Seq<SpecTop>, r: Result<Seq<SpecTop>, Seq<char>>) -> Result<
    Seq<SpecTop>,
    Seq<char>,
> {
    match r {
        Ok(ts) => Ok(pre + ts),
        Err(m) => Err(m),
    }
}

/// Parsing a whole token stack: top-level forms until the stack is empty.
pub open spec fn spec_parse(toks: Seq<Seq<char>>) -> Result<Seq<SpecTop>, Seq<char>>
    decreases toks.len(),
{
    if toks.len() == 0 {
        Ok(Seq::empty())
    } else {
        match spec_parse_toplevel(toks) {
            Ok(p) => {
                if p.1.len() < toks.len() {
                    match spec_parse(p.1) {
                        Ok(ts) => Ok(seq![p.0] + ts),
                        Err(m) => Err(m),
                    }
                } else {
                    // never reached: a top-level form consumes at least one token
                    Err(Seq::empty())
                }
            },
            Err(m) => Err(m),
        }
    }
}

/// The parse of a whole program text: tokenize, then parse the reversed
/// token stack front to back.
pub open spec fn spec_parse_program(s: Seq<char>) -> Result<Seq<SpecTop>, Seq<char>> {
    spec_parse(spec_tokenize(s, 0).reverse())
}

/// Parses a string into a vector of top-level forms.
pub fn parse(input: &str) -> (r: Result<Vec<TopLevel>, String>)
    ensures
        r matches Ok(v) ==> spec_parse_program(input@) == Ok::<Seq<SpecTop>, Seq<char>>(
            tops_view(v@),
        ),
        r matches Err(m) ==> (spec_parse_program(input@) matches Err(sm) && sm == m@),
{
    let mut toks = tokenize(input);
    let ghost orig = toks@;
    let mut tokens: Vec<String> = Vec::new();
    while toks.len() > 0
        invariant
            toks@.len() + tokens@.len() == orig.len(),
            toks@ =~= orig.subrange(0, toks@.len() as int),
            forall|j: int| 0 <= j < tokens@.len() ==> tokens@[j] == orig[orig.len() - 1 - j],
        decreases toks@.len(),
    {
        let t = toks.pop().unwrap();
        tokens.push(t);
    }
    proof {
        assert(toks_views(tokens@) =~= toks_views(orig).reverse());
        assert(toks_views(orig).reverse() == spec_tokenize(input@, 0).reverse());
    }
    let ghost t0 = toks_views(tokens@);
    let mut out: Vec<TopLevel> = Vec::new();
    proof {
        match spec_parse(t0) {
            Ok(ts) => {
                assert(tops_view(out@) + ts =~= ts);
            },
            Err(_) => {},
        }
        assert(tops_view(out@) =~= Seq::<SpecTop>::empty());
        assert(spec_parse(t0) == parse_compose(tops_view(out@), spec_parse(toks_views(tokens@))));
    }
    while tokens.len() > 0
        invariant
            spec_parse_program(input@) == spec_parse(t0),
            spec_parse(t0) == parse_compose(tops_view(out@), spec_parse(toks_views(tokens@))),
        decreases tokens@.len(),
    {
        let ghost cur = toks_views(tokens@);
        proof {
            assert(cur.len() == tokens@.len());
        }
        match parse_toplevel(&mut tokens) {
            Ok(t) => {
                proof {
                    assert(toks_views(tokens@).len() == tokens@.len());
                    assert(spec_parse(cur) == parse_compose(
                        seq![t@],
                        spec_parse(toks_views(tokens@)),
                    ));
                    assert(tops_view(out@.push(t)) =~= tops_view(out@) + seq![t@]);
                    match spec_parse(toks_views(tokens@)) {
                        Ok(ts) => {
                            assert((tops_view(out@) + seq![t@]) + ts =~= tops_view(out@) + (
                            seq![t@] + ts));
                        },
                        Err(_) => {},
                    }
                }
                out.push(t);
            },
            Err(m) => {
                proof {
                    assert(spec_parse_toplevel(cur) matches Err(sm) && sm == m@);
                    assert(spec_parse(cur) == Err::<Seq<SpecTop>, Seq<char>>(m@));
                    assert(spec_parse(t0) matches Err(sm) && sm == m@);
                }
                return Err(m);
            },
        }
    }
    proof {
        assert(toks_views(tokens@) =~= Seq::<Seq<char>>::empty());
        assert(spec_parse(toks_views(tokens@)) == Ok::<Seq<SpecTop>, Seq<char>>(Seq::empty()));
        assert(tops_view(out@) + Seq::<SpecTop>::empty() =~= tops_view(out@));
    }
    Ok(out)
}

} // verus!
