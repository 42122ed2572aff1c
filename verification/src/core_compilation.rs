//! Translation of syntax trees to core-world terms, and lowering of core
//! terms to physics-world stack code.
use vstd::prelude::*;
use crate::ast_view::strings_view;
use crate::ast::{AstNode, Literal, bound_trees_size, lemma_bound_trees_size, lemma_trees_size, tree_size, trees_size};
use crate::error::{CompilationError, SourceLocation, unknown_location};
use crate::integration::{CoreExpr, apply_all, lambdas};
use crate::physics::{OpCode, Value};
use crate::text::{concat2, decimal, decimal_string, str_eq, to_owned_string};

verus! {

/// The natural number that a float literal with text `t` stands for: the
/// value of the first entry of `table`, from index `i` on, whose text is
/// `t`, or 0 where none is.
pub open spec fn float_value_from(table: Seq<(String, u64)>, t: Seq<char>, i: int) -> u64
    decreases table.len() - i,
{
    if i < 0 || i >= table.len() {
        0
    } else if table[i].0@ == t {
        table[i].1
    } else {
        float_value_from(table, t, i + 1)
    }
}

/// The number of bytes of the UTF-8 encoding of `s`, as `str::len` gives it.
pub open spec fn utf8_length(s: Seq<char>) -> u64 {
    (vstd::utf8::encode_utf8(s).len() as usize) as u64
}

/// The core term of a literal: an integer as a natural number (wrapping
/// negative values), a boolean as 1 or 0, nil as 0, a float by `table`
/// (see `float_value_from`), and a string as its length in bytes.
pub open spec fn literal_term(l: Literal, table: Seq<(String, u64)>) -> CoreExpr {
    match l {
        Literal::Int(i) => CoreExpr::Nat(i as u64),
        Literal::Bool(b) => CoreExpr::Nat(if b { 1 } else { 0 }),
        Literal::Nil => CoreExpr::Nat(0),
        Literal::Float(t) => CoreExpr::Nat(float_value_from(table, t@, 0)),
        Literal::String(s) => CoreExpr::Nat(utf8_length(s@)),
    }
}

/// The comparison operator that a call's head names, if it names one: the
/// symbols `>`, `<` and `=`.
pub open spec fn comparison_name(f: AstNode) -> Option<Seq<char>> {
    match f {
        AstNode::Symbol(s) => if s@ == ">"@ || s@ == "<"@ || s@ == "="@ {
            Some(s@)
        } else {
            None
        },
        _ => None,
    }
}

/// The message for a comparison called with `n` arguments.
pub open spec fn arity_message(op: Seq<char>, n: nat) -> Seq<char> {
    op + " expects exactly 2 arguments, got "@ + decimal(n)
}

/// The core term of a tree, or the message of the error that stops its
/// translation. Variables and symbols are placeholders (variable 0); a call
/// of a comparison needs exactly two arguments, which are translated and
/// dropped, and stands for 0; another call applies its function's term to
/// its arguments' terms in order; a lambda is one abstraction per parameter
/// around its body; a `let` (and a `letrec`) abstracts its body once per
/// binding and applies that to the values in binding order; an `if`
/// translates all three parts and keeps the `then` branch; a trust tier
/// annotation is its expression; a pair is a pair of terms; every other
/// form stands for 0. Sub-trees are translated in the order named, and the
/// first error is the result.
pub open spec fn core_term(n: AstNode, table: Seq<(String, u64)>) -> Result<CoreExpr, Seq<char>>
    decreases n, 0int,
{
    match n {
        AstNode::Literal(l) => Ok(literal_term(l, table)),
        AstNode::Variable(_) => Ok(CoreExpr::Var(0)),
        AstNode::Symbol(_) => Ok(CoreExpr::Var(0)),
        AstNode::Call { function, arguments, .. } => match comparison_name(*function) {
            Some(op) => if arguments.len() != 2 {
                Err(arity_message(op, arguments.len() as nat))
            } else {
                match core_terms(arguments, 2, table) {
                    Err(m) => Err(m),
                    Ok(_) => Ok(CoreExpr::Nat(0)),
                }
            },
            None => match core_term(*function, table) {
                Err(m) => Err(m),
                Ok(f) => match core_terms(arguments, arguments.len() as int, table) {
                    Err(m) => Err(m),
                    Ok(a) => Ok(apply_all(f, a)),
                },
            },
        },
        AstNode::Lambda { parameters, body, .. } => match core_term(*body, table) {
            Err(m) => Err(m),
            Ok(b) => Ok(lambdas(b, parameters.len() as nat)),
        },
        AstNode::Let { bindings, body, .. } => match core_term(*body, table) {
            Err(m) => Err(m),
            Ok(b) => match bound_values(bindings, bindings.len() as int, table) {
                Err(m) => Err(m),
                Ok(vs) => Ok(apply_all(lambdas(b, bindings.len() as nat), vs)),
            },
        },
        AstNode::Letrec { bindings, body, .. } => match core_term(*body, table) {
            Err(m) => Err(m),
            Ok(b) => match bound_values(bindings, bindings.len() as int, table) {
                Err(m) => Err(m),
                Ok(vs) => Ok(apply_all(lambdas(b, bindings.len() as nat), vs)),
            },
        },
        AstNode::If { condition, then_branch, else_branch, .. } => match core_term(*condition, table) {
            Err(m) => Err(m),
            Ok(_) => match core_term(*then_branch, table) {
                Err(m) => Err(m),
                Ok(t) => match core_term(*else_branch, table) {
                    Err(m) => Err(m),
                    Ok(_) => Ok(t),
                },
            },
        },
        AstNode::TrustTier { expression, .. } => core_term(*expression, table),
        AstNode::Cons { car, cdr, .. } => match core_term(*car, table) {
            Err(m) => Err(m),
            Ok(a) => match core_term(*cdr, table) {
                Err(m) => Err(m),
                Ok(d) => Ok(CoreExpr::Pair(Box::new(a), Box::new(d))),
            },
        },
        _ => Ok(CoreExpr::Nat(0)),
    }
}

/// The terms of the first `k` trees of `v`, in order, or the first error.
pub open spec fn core_terms(v: Vec<AstNode>, k: int, table: Seq<(String, u64)>) -> Result<
    Seq<CoreExpr>,
    Seq<char>,
>
    decreases v, k,
{
    if k <= 0 || k > v.len() {
        Ok(seq![])
    } else {
        match core_terms(v, k - 1, table) {
            Err(m) => Err(m),
            Ok(s) => match core_term(v[k - 1], table) {
                Err(m) => Err(m),
                Ok(x) => Ok(s.push(x)),
            },
        }
    }
}

/// The terms of the values of the first `k` bindings of `v`, in binding
/// order, or the first error.
pub open spec fn bound_values(v: Vec<(String, AstNode)>, k: int, table: Seq<(String, u64)>) -> Result<
    Seq<CoreExpr>,
    Seq<char>,
>
    decreases v, k,
{
    if k <= 0 || k > v.len() {
        Ok(seq![])
    } else {
        match bound_values(v, k - 1, table) {
            Err(m) => Err(m),
            Ok(s) => match core_term(v[k - 1].1, table) {
                Err(m) => Err(m),
                Ok(x) => Ok(s.push(x)),
            },
        }
    }
}

/// Is `e` the error with message `m` that stops a translation?
pub open spec fn is_core_error(e: CompilationError, m: Seq<char>) -> bool {
    e matches CompilationError::ParseError { message, location } && message@ == m && location
        == unknown_location()
}

/// Does `r` report the outcome `spec` of a translation?
pub open spec fn core_outcome(spec: Result<CoreExpr, Seq<char>>, r: Result<CoreExpr, CompilationError>) -> bool {
    match spec {
        Ok(e) => r matches Ok(x) && x == e,
        Err(m) => r matches Err(err) && is_core_error(err, m),
    }
}

/// Does `r` report the outcome `spec` of translating several trees?
pub open spec fn terms_outcome(
    spec: Result<Seq<CoreExpr>, Seq<char>>,
    r: Result<Vec<CoreExpr>, CompilationError>,
) -> bool {
    match spec {
        Ok(s) => r matches Ok(x) && x@ == s,
        Err(m) => r matches Err(err) && is_core_error(err, m),
    }
}

/// The value `table` gives the float text `t` (see `float_value_from`).
fn float_value(table: &Vec<(String, u64)>, t: &str) -> (r: u64)
    ensures
        r == float_value_from(table@, t@, 0),
{
    let mut i: usize = 0;
    while i < table.len()
        invariant
            i <= table@.len(),
            float_value_from(table@, t@, 0) == float_value_from(table@, t@, i as int),
        decreases table@.len() - i,
    {
        if str_eq(table[i].0.as_str(), t) {
            return table[i].1;
        }
        i = i + 1;
    }
    0
}

/// The core term of a literal (see `literal_term`).
pub(crate) fn literal_core_term(l: &Literal, table: &Vec<(String, u64)>) -> (r: CoreExpr)
    ensures
        r == literal_term(*l, table@),
{
    match l {
        Literal::Int(n) => CoreExpr::Nat(*n as u64),
        Literal::Bool(b) => CoreExpr::Nat(if *b { 1 } else { 0 }),
        Literal::Nil => CoreExpr::Nat(0),
        Literal::Float(t) => CoreExpr::Nat(float_value(table, t.as_str())),
        Literal::String(s) => CoreExpr::Nat(s.as_str().len() as u64),
    }
}

/// Translates a tree to a core term (see `core_term`). The natural number
/// that each float literal stands for (its value truncated) is looked up in
/// `floats` by the literal's text, since floating-point arithmetic is left
/// to the caller; a text the table lacks stands for 0. `float_literal_texts`
/// lists the texts the table needs. `compile_ast_to_core_expr_with_proofs`
/// gives the same term together with its proof.
pub fn compile_ast_to_core_expr(ast: &AstNode, floats: &Vec<(String, u64)>) -> (r: Result<
    CoreExpr,
    CompilationError,
>)
    ensures
        core_outcome(core_term(*ast, floats@), r),
    decreases 2 * tree_size(*ast) + 1,
{
    match ast {
        AstNode::Literal(l) => Ok(literal_core_term(l, floats)),
        AstNode::Variable(_) => Ok(CoreExpr::Var(0)),
        AstNode::Symbol(_) => Ok(CoreExpr::Var(0)),
        AstNode::Call { function, arguments, .. } => {
            if let AstNode::Symbol(sym) = &**function {
                if str_eq(sym.as_str(), ">") || str_eq(sym.as_str(), "<") || str_eq(sym.as_str(), "=") {
                    if arguments.len() != 2 {
                        let head = concat2(sym.as_str(), " expects exactly 2 arguments, got ");
                        let count = decimal_string(arguments.len() as u64);
                        let message = concat2(head.as_str(), count.as_str());
                        return Err(CompilationError::ParseError { message, location: SourceLocation::default() });
                    }
                    return match compile_core_terms(arguments, 2, floats) {
                        Err(e) => Err(e),
                        Ok(_) => Ok(CoreExpr::Nat(0)),
                    };
                }
            }
            let f = match compile_ast_to_core_expr(function, floats) {
                Ok(f) => f,
                Err(e) => {
                    return Err(e);
                },
            };
            let args = match compile_core_terms(arguments, arguments.len(), floats) {
                Ok(a) => a,
                Err(e) => {
                    return Err(e);
                },
            };
            Ok(apply_terms(f, args))
        },
        AstNode::Lambda { parameters, body, .. } => {
            let b = match compile_ast_to_core_expr(body, floats) {
                Ok(b) => b,
                Err(e) => {
                    return Err(e);
                },
            };
            Ok(abstract_term(b, parameters.len()))
        },
        AstNode::Let { bindings, body, .. } => compile_binding_form(bindings, body, floats),
        AstNode::Letrec { bindings, body, .. } => compile_binding_form(bindings, body, floats),
        AstNode::If { condition, then_branch, else_branch, .. } => {
            match compile_ast_to_core_expr(condition, floats) {
                Ok(_) => {},
                Err(e) => {
                    return Err(e);
                },
            }
            let t = match compile_ast_to_core_expr(then_branch, floats) {
                Ok(t) => t,
                Err(e) => {
                    return Err(e);
                },
            };
            match compile_ast_to_core_expr(else_branch, floats) {
                Ok(_) => Ok(t),
                Err(e) => Err(e),
            }
        },
        AstNode::TrustTier { expression, .. } => compile_ast_to_core_expr(expression, floats),
        AstNode::Cons { car, cdr, .. } => {
            let a = match compile_ast_to_core_expr(car, floats) {
                Ok(a) => a,
                Err(e) => {
                    return Err(e);
                },
            };
            let d = match compile_ast_to_core_expr(cdr, floats) {
                Ok(d) => d,
                Err(e) => {
                    return Err(e);
                },
            };
            Ok(CoreExpr::Pair(Box::new(a), Box::new(d)))
        },
        _ => Ok(CoreExpr::Nat(0)),
    }
}

/// The term of a `let` or `letrec` with these bindings and body.
fn compile_binding_form(bindings: &Vec<(String, AstNode)>, body: &AstNode, floats: &Vec<(String, u64)>) -> (r: Result<
    CoreExpr,
    CompilationError,
>)
    ensures
        core_outcome(
            match core_term(*body, floats@) {
                Err(m) => Err(m),
                Ok(b) => match bound_values(*bindings, bindings@.len() as int, floats@) {
                    Err(m) => Err(m),
                    Ok(vs) => Ok(apply_all(lambdas(b, bindings@.len() as nat), vs)),
                },
            },
            r,
        ),
    decreases 2 * (tree_size(*body) + bound_trees_size(*bindings, bindings@.len() as int)) + 2,
{
    let b = match compile_ast_to_core_expr(body, floats) {
        Ok(b) => b,
        Err(e) => {
            return Err(e);
        },
    };
    let vs = match compile_bound_values(bindings, floats) {
        Ok(vs) => vs,
        Err(e) => {
            return Err(e);
        },
    };
    Ok(apply_terms(abstract_term(b, bindings.len()), vs))
}

/// The terms of the first `k` trees of `v` (see `core_terms`).
#[verifier::loop_isolation(false)]
pub(crate) fn compile_core_terms(v: &Vec<AstNode>, k: usize, floats: &Vec<(String, u64)>) -> (r: Result<
    Vec<CoreExpr>,
    CompilationError,
>)
    requires
        k <= v@.len(),
    ensures
        terms_outcome(core_terms(*v, k as int, floats@), r),
    decreases 2 * trees_size(*v, k as int) + 2,
{
    let mut out: Vec<CoreExpr> = Vec::new();
    let mut i: usize = 0;
    while i < k
        invariant
            i <= k <= v@.len(),
            core_terms(*v, i as int, floats@) == Ok::<Seq<CoreExpr>, Seq<char>>(out@),
        decreases k - i,
    {
        proof {
            lemma_trees_size(*v, i as int, k as int);
        }
        match compile_ast_to_core_expr(&v[i], floats) {
            Ok(x) => {
                out.push(x);
            },
            Err(e) => {
                proof {
                    lemma_core_terms_err(*v, i as int + 1, k as int, floats@);
                }
                return Err(e);
            },
        }
        i = i + 1;
    }
    Ok(out)
}

/// The terms of the values of `v`, in binding order (see `bound_values`).
#[verifier::loop_isolation(false)]
fn compile_bound_values(v: &Vec<(String, AstNode)>, floats: &Vec<(String, u64)>) -> (r: Result<
    Vec<CoreExpr>,
    CompilationError,
>)
    ensures
        terms_outcome(bound_values(*v, v@.len() as int, floats@), r),
    decreases 2 * bound_trees_size(*v, v@.len() as int) + 2,
{
    let n = v.len();
    let mut out: Vec<CoreExpr> = Vec::new();
    let mut j: usize = 0;
    while j < n
        invariant
            j <= n == v@.len(),
            bound_values(*v, j as int, floats@) == Ok::<Seq<CoreExpr>, Seq<char>>(out@),
        decreases n - j,
    {
        proof {
            lemma_bound_trees_size(*v, j as int, n as int);
        }
        match compile_ast_to_core_expr(&v[j].1, floats) {
            Ok(x) => {
                out.push(x);
            },
            Err(e) => {
                proof {
                    lemma_bound_values_err(*v, j as int + 1, n as int, floats@);
                }
                return Err(e);
            },
        }
        j = j + 1;
    }
    Ok(out)
}

/// `f` applied to each of `args` in turn.
fn apply_terms(f: CoreExpr, args: Vec<CoreExpr>) -> (r: CoreExpr)
    ensures
        r == apply_all(f, args@),
{
    let ghost all = args@;
    let n: usize = args.len();
    let mut rest = args;
    let mut result = f;
    let mut i: usize = 0;
    while rest.len() > 0
        invariant
            i <= all.len() == n,
            i + rest@.len() == all.len(),
            rest@ == all.skip(i as int),
            result == apply_all(f, all.take(i as int)),
        decreases rest@.len(),
    {
        assert(all.take(i as int + 1).drop_last() =~= all.take(i as int));
        let a = rest.remove(0);
        result = CoreExpr::App(Box::new(result), Box::new(a));
        assert(rest@ =~= all.skip(i as int + 1));
        i = i + 1;
    }
    assert(all.take(all.len() as int) =~= all);
    result
}

/// `n` abstractions around `body`.
fn abstract_term(body: CoreExpr, n: usize) -> (r: CoreExpr)
    ensures
        r == lambdas(body, n as nat),
{
    let ghost b = body;
    let mut result = body;
    let mut k: usize = 0;
    while k < n
        invariant
            k <= n,
            result == lambdas(b, k as nat),
        decreases n - k,
    {
        result = CoreExpr::Lam(Box::new(result));
        k = k + 1;
    }
    result
}

/// Once the terms of a prefix of the trees fail, so do those of every
/// longer prefix, with the same error.
pub(crate) proof fn lemma_core_terms_err(v: Vec<AstNode>, i: int, k: int, table: Seq<(String, u64)>)
    requires
        0 <= i <= k <= v.len(),
        core_terms(v, i, table) is Err,
    ensures
        core_terms(v, k, table) == core_terms(v, i, table),
    decreases k - i,
{
    if k > i {
        lemma_core_terms_err(v, i, k - 1, table);
    }
}

/// Once the values of the first bindings fail, so do those of more.
pub(crate) proof fn lemma_bound_values_err(v: Vec<(String, AstNode)>, i: int, k: int, table: Seq<(String, u64)>)
    requires
        0 <= i <= k <= v.len(),
        bound_values(v, i, table) is Err,
    ensures
        bound_values(v, k, table) == bound_values(v, i, table),
    decreases k - i,
{
    if k > i {
        lemma_bound_values_err(v, i, k - 1, table);
    }
}

/// The texts of the float literals that the translation of `n` may read,
/// in source order (those of calls, lambdas, bindings and bodies of `let`
/// and `letrec`, the parts of an `if`, trust tier annotations and pairs).
pub open spec fn float_texts(n: AstNode) -> Seq<Seq<char>>
    decreases n, 0int,
{
    match n {
        AstNode::Literal(Literal::Float(t)) => seq![t@],
        AstNode::Call { function, arguments, .. } => float_texts(*function) + floats_in(
            arguments,
            arguments.len() as int,
        ),
        AstNode::Lambda { body, .. } => float_texts(*body),
        AstNode::Let { bindings, body, .. } => float_texts(*body) + floats_in_bindings(
            bindings,
            bindings.len() as int,
        ),
        AstNode::Letrec { bindings, body, .. } => float_texts(*body) + floats_in_bindings(
            bindings,
            bindings.len() as int,
        ),
        AstNode::If { condition, then_branch, else_branch, .. } => float_texts(*condition)
            + float_texts(*then_branch) + float_texts(*else_branch),
        AstNode::TrustTier { expression, .. } => float_texts(*expression),
        AstNode::Cons { car, cdr, .. } => float_texts(*car) + float_texts(*cdr),
        _ => seq![],
    }
}

/// The float texts of the first `k` trees of `v`.
pub open spec fn floats_in(v: Vec<AstNode>, k: int) -> Seq<Seq<char>>
    decreases v, k,
{
    if k <= 0 || k > v.len() {
        seq![]
    } else {
        floats_in(v, k - 1) + float_texts(v[k - 1])
    }
}

/// The float texts of the values of the first `k` bindings of `v`.
pub open spec fn floats_in_bindings(v: Vec<(String, AstNode)>, k: int) -> Seq<Seq<char>>
    decreases v, k,
{
    if k <= 0 || k > v.len() {
        seq![]
    } else {
        floats_in_bindings(v, k - 1) + float_texts(v[k - 1].1)
    }
}

/// The texts of the float literals of `ast` that its translation to a core
/// term may read (see `float_texts`): a table for `compile_ast_to_core_expr`
/// needs an entry for each.
pub fn float_literal_texts(ast: &AstNode) -> (r: Vec<String>)
    ensures
        strings_view(r) == float_texts(*ast),
{
    let mut out: Vec<String> = Vec::new();
    collect_float_texts(ast, &mut out);
    assert(strings_view(out) =~= float_texts(*ast));
    out
}

/// Appends the float texts of `n` to `out`.
fn collect_float_texts(n: &AstNode, out: &mut Vec<String>)
    ensures
        strings_view(*final(out)) == strings_view(*old(out)) + float_texts(*n),
    decreases 2 * tree_size(*n) + 1,
{
    let ghost start = strings_view(*out);
    match n {
        AstNode::Literal(Literal::Float(t)) => {
            out.push(to_owned_string(t.as_str()));
            assert(strings_view(*out) =~= start + float_texts(*n));
        },
        AstNode::Call { function, arguments, .. } => {
            collect_float_texts(function, out);
            collect_floats_in(arguments, out);
            assert(strings_view(*out) =~= start + float_texts(*n));
        },
        AstNode::Lambda { body, .. } => {
            collect_float_texts(body, out);
        },
        AstNode::Let { bindings, body, .. } => {
            collect_float_texts(body, out);
            collect_floats_in_bindings(bindings, out);
            assert(strings_view(*out) =~= start + float_texts(*n));
        },
        AstNode::Letrec { bindings, body, .. } => {
            collect_float_texts(body, out);
            collect_floats_in_bindings(bindings, out);
            assert(strings_view(*out) =~= start + float_texts(*n));
        },
        AstNode::If { condition, then_branch, else_branch, .. } => {
            collect_float_texts(condition, out);
            collect_float_texts(then_branch, out);
            collect_float_texts(else_branch, out);
            assert(strings_view(*out) =~= start + float_texts(*n));
        },
        AstNode::TrustTier { expression, .. } => {
            collect_float_texts(expression, out);
        },
        AstNode::Cons { car, cdr, .. } => {
            collect_float_texts(car, out);
            collect_float_texts(cdr, out);
            assert(strings_view(*out) =~= start + float_texts(*n));
        },
        _ => {
            assert(strings_view(*out) =~= start + float_texts(*n));
        },
    }
}

/// Appends the float texts of the trees of `v` to `out`.
#[verifier::loop_isolation(false)]
fn collect_floats_in(v: &Vec<AstNode>, out: &mut Vec<String>)
    ensures
        strings_view(*final(out)) == strings_view(*old(out)) + floats_in(*v, v@.len() as int),
    decreases 2 * trees_size(*v, v@.len() as int) + 2,
{
    let ghost start = strings_view(*out);
    let mut i: usize = 0;
    while i < v.len()
        invariant
            i <= v@.len(),
            strings_view(*out) == start + floats_in(*v, i as int),
        decreases v@.len() - i,
    {
        proof {
            lemma_trees_size(*v, i as int, v@.len() as int);
        }
        collect_float_texts(&v[i], out);
        assert(start + floats_in(*v, i as int + 1) =~= start + floats_in(*v, i as int) + float_texts(v@[i as int]));
        i = i + 1;
    }
}

/// Appends the float texts of the values of `v` to `out`.
#[verifier::loop_isolation(false)]
fn collect_floats_in_bindings(v: &Vec<(String, AstNode)>, out: &mut Vec<String>)
    ensures
        strings_view(*final(out)) == strings_view(*old(out)) + floats_in_bindings(*v, v@.len() as int),
    decreases 2 * bound_trees_size(*v, v@.len() as int) + 2,
{
    let ghost start = strings_view(*out);
    let mut i: usize = 0;
    while i < v.len()
        invariant
            i <= v@.len(),
            strings_view(*out) == start + floats_in_bindings(*v, i as int),
        decreases v@.len() - i,
    {
        proof {
            lemma_bound_trees_size(*v, i as int, v@.len() as int);
        }
        collect_float_texts(&v[i].1, out);
        assert(start + floats_in_bindings(*v, i as int + 1) =~= start + floats_in_bindings(*v, i as int)
            + float_texts(v@[i as int].1));
        i = i + 1;
    }
}

/// Do the tables `a` and `b` give the same value to every text of `texts`?
pub open spec fn tables_agree_on(a: Seq<(String, u64)>, b: Seq<(String, u64)>, texts: Seq<Seq<char>>) -> bool {
    forall|t: Seq<char>| #[trigger] texts.contains(t) ==> float_value_from(a, t, 0) == float_value_from(b, t, 0)
}

/// Tables that agree on the texts of `p + q` agree on those of each part.
proof fn lemma_agree_on_parts(a: Seq<(String, u64)>, b: Seq<(String, u64)>, p: Seq<Seq<char>>, q: Seq<Seq<char>>)
    requires
        tables_agree_on(a, b, p + q),
    ensures
        tables_agree_on(a, b, p),
        tables_agree_on(a, b, q),
{
    assert forall|x: Seq<char>| #[trigger] p.contains(x) implies float_value_from(a, x, 0) == float_value_from(b, x, 0) by {
        let i = choose|i: int| 0 <= i < p.len() && p[i] == x;
        assert((p + q)[i] == x);
        assert((p + q).contains(x));
    }
    assert forall|x: Seq<char>| #[trigger] q.contains(x) implies float_value_from(a, x, 0) == float_value_from(b, x, 0) by {
        let i = choose|i: int| 0 <= i < q.len() && q[i] == x;
        assert((p + q)[p.len() + i] == x);
        assert((p + q).contains(x));
    }
}

/// The translation of a tree reads its float table only at the tree's float
/// texts: two tables that agree there give the same outcome.
pub proof fn lemma_core_term_reads_listed_floats(n: AstNode, a: Seq<(String, u64)>, b: Seq<(String, u64)>)
    requires
        tables_agree_on(a, b, float_texts(n)),
    ensures
        core_term(n, a) == core_term(n, b),
    decreases n, 0int,
{
    match n {
        AstNode::Call { function, arguments, .. } => {
            let k = arguments.len() as int;
            lemma_agree_on_parts(a, b, float_texts(*function), floats_in(arguments, k));
            lemma_core_term_reads_listed_floats(*function, a, b);
            lemma_core_terms_read_listed_floats(arguments, k, a, b);
            if k == 2 {
                lemma_core_terms_read_listed_floats(arguments, 2, a, b);
            }
        },
        AstNode::Lambda { body, .. } => {
            lemma_core_term_reads_listed_floats(*body, a, b);
        },
        AstNode::Let { bindings, body, .. } => {
            lemma_agree_on_parts(a, b, float_texts(*body), floats_in_bindings(bindings, bindings.len() as int));
            lemma_core_term_reads_listed_floats(*body, a, b);
            lemma_bound_values_read_listed_floats(bindings, bindings.len() as int, a, b);
        },
        AstNode::Letrec { bindings, body, .. } => {
            lemma_agree_on_parts(a, b, float_texts(*body), floats_in_bindings(bindings, bindings.len() as int));
            lemma_core_term_reads_listed_floats(*body, a, b);
            lemma_bound_values_read_listed_floats(bindings, bindings.len() as int, a, b);
        },
        AstNode::If { condition, then_branch, else_branch, .. } => {
            lemma_agree_on_parts(
                a,
                b,
                float_texts(*condition) + float_texts(*then_branch),
                float_texts(*else_branch),
            );
            lemma_agree_on_parts(a, b, float_texts(*condition), float_texts(*then_branch));
            lemma_core_term_reads_listed_floats(*condition, a, b);
            lemma_core_term_reads_listed_floats(*then_branch, a, b);
            lemma_core_term_reads_listed_floats(*else_branch, a, b);
        },
        AstNode::TrustTier { expression, .. } => {
            lemma_core_term_reads_listed_floats(*expression, a, b);
        },
        AstNode::Cons { car, cdr, .. } => {
            lemma_agree_on_parts(a, b, float_texts(*car), float_texts(*cdr));
            lemma_core_term_reads_listed_floats(*car, a, b);
            lemma_core_term_reads_listed_floats(*cdr, a, b);
        },
        AstNode::Literal(Literal::Float(t)) => {
            assert(float_texts(n)[0] == t@);
            assert(float_texts(n).contains(t@));
        },
        _ => {},
    }
}

/// The translation of the first `k` trees reads the table only at their
/// float texts.
proof fn lemma_core_terms_read_listed_floats(v: Vec<AstNode>, k: int, a: Seq<(String, u64)>, b: Seq<(String, u64)>)
    requires
        tables_agree_on(a, b, floats_in(v, k)),
    ensures
        core_terms(v, k, a) == core_terms(v, k, b),
    decreases v, k,
{
    if 0 < k <= v.len() {
        lemma_agree_on_parts(a, b, floats_in(v, k - 1), float_texts(v[k - 1]));
        lemma_core_terms_read_listed_floats(v, k - 1, a, b);
        lemma_core_term_reads_listed_floats(v[k - 1], a, b);
    }
}

/// Tables that agree on the float texts of the values of the first `k`
/// bindings agree on those of the first `i` (for `i <= k`).
proof fn lemma_agree_on_fewer_bindings(v: Vec<(String, AstNode)>, i: int, k: int, a: Seq<(String, u64)>, b: Seq<(String, u64)>)
    requires
        0 <= i <= k <= v.len(),
        tables_agree_on(a, b, floats_in_bindings(v, k)),
    ensures
        tables_agree_on(a, b, floats_in_bindings(v, i)),
    decreases k - i,
{
    if i < k {
        lemma_agree_on_parts(a, b, floats_in_bindings(v, k - 1), float_texts(v[k - 1].1));
        lemma_agree_on_fewer_bindings(v, i, k - 1, a, b);
    }
}

/// The translation of the values of the first `k` bindings reads the table
/// only at the float texts of the values.
proof fn lemma_bound_values_read_listed_floats(
    v: Vec<(String, AstNode)>,
    k: int,
    a: Seq<(String, u64)>,
    b: Seq<(String, u64)>,
)
    requires
        tables_agree_on(a, b, floats_in_bindings(v, v.len() as int)),
    ensures
        bound_values(v, k, a) == bound_values(v, k, b),
    decreases v, k,
{
    if 0 < k <= v.len() {
        lemma_agree_on_fewer_bindings(v, k, v.len() as int, a, b);
        lemma_agree_on_parts(a, b, floats_in_bindings(v, k - 1), float_texts(v[k - 1].1));
        lemma_bound_values_read_listed_floats(v, k - 1, a, b);
        lemma_core_term_reads_listed_floats(v[k - 1].1, a, b);
    }
}

/// The stack code of a core term. Variables and abstractions are not
/// lowered yet and push the integer 0; an application pushes its function,
/// then its argument, then adds; a natural number pushes itself as an `i64`
/// (wrapping above `i64::MAX`); a pair pushes both parts and builds a pair.
pub open spec fn core_code(e: CoreExpr) -> Seq<OpCode>
    decreases e,
{
    match e {
        CoreExpr::Var(_) => seq![OpCode::Int(0)],
        CoreExpr::Lam(_) => seq![OpCode::Int(0)],
        CoreExpr::App(f, a) => core_code(*f) + core_code(*a) + seq![OpCode::Add],
        CoreExpr::Nat(n) => seq![OpCode::Int(n as i64)],
        CoreExpr::Pair(x, y) => core_code(*x) + core_code(*y) + seq![OpCode::Cons],
    }
}

/// Lowers a core term to stack code (see `core_code`) and the constants the
/// code uses, of which there are none.
pub fn compile_core_expr_to_bytecode(expr: &CoreExpr) -> (r: (Vec<OpCode>, Vec<Value>))
    ensures
        r.0@ == core_code(*expr),
        r.1@.len() == 0,
    decreases expr,
{
    let mut bytecode: Vec<OpCode> = Vec::new();
    let mut constants: Vec<Value> = Vec::new();
    match expr {
        CoreExpr::Var(_) => {
            bytecode.push(OpCode::Int(0));
        },
        CoreExpr::Lam(_) => {
            bytecode.push(OpCode::Int(0));
        },
        CoreExpr::App(func, arg) => {
            let (mut func_code, mut func_constants) = compile_core_expr_to_bytecode(func);
            let (mut arg_code, mut arg_constants) = compile_core_expr_to_bytecode(arg);
            bytecode.append(&mut func_code);
            bytecode.append(&mut arg_code);
            bytecode.push(OpCode::Add);
            constants.append(&mut func_constants);
            constants.append(&mut arg_constants);
        },
        CoreExpr::Nat(n) => {
            bytecode.push(OpCode::Int(*n as i64));
        },
        CoreExpr::Pair(first, second) => {
            let (mut first_code, mut first_constants) = compile_core_expr_to_bytecode(first);
            let (mut second_code, mut second_constants) = compile_core_expr_to_bytecode(second);
            bytecode.append(&mut first_code);
            bytecode.append(&mut second_code);
            bytecode.push(OpCode::Cons);
            constants.append(&mut first_constants);
            constants.append(&mut second_constants);
        },
    }
    assert(bytecode@ =~= core_code(*expr));
    (bytecode, constants)
}

} // verus!
