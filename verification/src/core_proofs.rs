//! Proofs about core terms that the front end builds beside a tree's
//! translation: reflexivity for values, congruence for applications,
//! abstractions and pairs, and transitivity to chain steps. Where a part has
//! no proof, the proof the core world's kernel gives for the term (its
//! normalization, or reflexivity for a normal form) is taken from a table.
use vstd::prelude::*;
use crate::ast::{AstNode, Literal, bound_trees_size, lemma_bound_trees_size, lemma_trees_size, tree_size, trees_size};
use crate::core_compilation::{
    bound_values, compile_core_terms, comparison_name, core_term, core_terms, is_core_error,
    lemma_bound_values_err, lemma_core_terms_err, literal_core_term, literal_term,
};
use crate::error::{CompilationError, SourceLocation};
use crate::integration::{CoreExpr, apply_all, lambdas};
use crate::text::{concat2, decimal_string, str_eq};

verus! {

/// A proof that one core term reduces or is equal to another.
#[derive(Debug, PartialEq, Eq)]
pub enum Proof {
    /// A term equals itself.
    Refl(CoreExpr),
    /// Equal functions applied to equal arguments are equal.
    CongApp {
        /// The proof for the function.
        proof_f: Box<Proof>,
        /// The proof for the argument.
        proof_a: Box<Proof>,
    },
    /// Abstractions of equal bodies are equal.
    CongLam {
        /// The proof for the body.
        proof_b: Box<Proof>,
    },
    /// Two proofs chained.
    Trans {
        /// The first proof.
        proof_a: Box<Proof>,
        /// The second proof.
        proof_b: Box<Proof>,
    },
    /// One beta reduction step, as the kernel gives it.
    BetaStep {
        /// The reduced term.
        redex: CoreExpr,
        /// What it reduces to.
        contractum: CoreExpr,
    },
    /// One eta reduction step, as the kernel gives it.
    EtaStep {
        /// The reduced term.
        redex: CoreExpr,
        /// What it reduces to.
        contractum: CoreExpr,
    },
}

/// The proof the kernel gives for `e`, from index `i` of `kernel` on: that
/// of the first entry for `e`, or none where no entry is for it.
pub open spec fn kernel_proof_from(kernel: Seq<(CoreExpr, Option<Proof>)>, e: CoreExpr, i: int) -> Option<Proof>
    decreases kernel.len() - i,
{
    if i < 0 || i >= kernel.len() {
        None
    } else if kernel[i].0 == e {
        kernel[i].1
    } else {
        kernel_proof_from(kernel, e, i + 1)
    }
}

/// The proof the kernel gives for `e` (see `kernel_proof_from`).
pub open spec fn kernel_proof(kernel: Seq<(CoreExpr, Option<Proof>)>, e: CoreExpr) -> Option<Proof> {
    kernel_proof_from(kernel, e, 0)
}

/// `prev` chained with `step`, where there is a step.
pub open spec fn chain(prev: Option<Proof>, step: Option<Proof>) -> Option<Proof> {
    match step {
        None => prev,
        Some(s) => match prev {
            Some(c) => Some(Proof::Trans { proof_a: Box::new(c), proof_b: Box::new(s) }),
            None => Some(s),
        },
    }
}

/// The proof of one application of `f` (with proof `fp`) to `a` (with
/// proof `ap`): congruence where both have proofs, else the kernel's proof
/// of the application.
pub open spec fn application_step(
    kernel: Seq<(CoreExpr, Option<Proof>)>,
    f: CoreExpr,
    fp: Option<Proof>,
    a: CoreExpr,
    ap: Option<Proof>,
) -> Option<Proof> {
    match (fp, ap) {
        (Some(p), Some(q)) => Some(Proof::CongApp { proof_f: Box::new(p), proof_a: Box::new(q) }),
        _ => kernel_proof(kernel, CoreExpr::App(Box::new(f), Box::new(a))),
    }
}

/// The proof of `f` (with proof `fp`) applied to `args` (with proofs `aps`)
/// in turn: each application's step chained onto the proof so far.
pub open spec fn applied_proof(
    kernel: Seq<(CoreExpr, Option<Proof>)>,
    f: CoreExpr,
    fp: Option<Proof>,
    args: Seq<CoreExpr>,
    aps: Seq<Option<Proof>>,
) -> Option<Proof>
    decreases args.len(),
{
    if args.len() == 0 || aps.len() != args.len() {
        fp
    } else {
        let prev = applied_proof(kernel, f, fp, args.drop_last(), aps.drop_last());
        chain(prev, application_step(kernel, apply_all(f, args.drop_last()), prev, args.last(), aps.last()))
    }
}

/// A body's proof under `n` abstractions, where the body has one.
pub open spec fn abstracted_proof(p: Option<Proof>, n: nat) -> Option<Proof>
    decreases n,
{
    if n == 0 {
        p
    } else {
        match abstracted_proof(p, (n - 1) as nat) {
            Some(q) => Some(Proof::CongLam { proof_b: Box::new(q) }),
            None => None,
        }
    }
}

/// The term of a tree that translates (a placeholder otherwise).
pub open spec fn term_of(n: AstNode, table: Seq<(String, u64)>) -> CoreExpr {
    match core_term(n, table) {
        Ok(e) => e,
        Err(_) => CoreExpr::Var(0),
    }
}

/// The terms of the first `k` trees of `v`, where they translate.
pub open spec fn terms_of(v: Vec<AstNode>, k: int, table: Seq<(String, u64)>) -> Seq<CoreExpr> {
    match core_terms(v, k, table) {
        Ok(s) => s,
        Err(_) => seq![],
    }
}

/// The terms of the values of the first `k` bindings of `v`, where they
/// translate.
pub open spec fn values_of(v: Vec<(String, AstNode)>, k: int, table: Seq<(String, u64)>) -> Seq<CoreExpr> {
    match bound_values(v, k, table) {
        Ok(s) => s,
        Err(_) => seq![],
    }
}

/// The proof built beside the term of a tree that translates: reflexivity
/// for literals, variables and symbols; for a call, the applications'
/// steps chained onto the function's proof (a comparison has none); for a
/// lambda, the body's proof under one congruence per parameter; for a
/// `let` or `letrec`, the abstracted body's proof with the values'
/// applications chained on, in binding order; an `if` has the proof of its
/// `then` branch and a trust tier annotation that of its expression; a pair
/// has congruence of its parts' proofs where both have one, else the
/// kernel's proof of the pair; a foreign call has none; every other form
/// has reflexivity of 0.
pub open spec fn core_proof(n: AstNode, table: Seq<(String, u64)>, kernel: Seq<(CoreExpr, Option<Proof>)>) -> Option<Proof>
    decreases n, 0int,
{
    match n {
        AstNode::Literal(l) => Some(Proof::Refl(literal_term(l, table))),
        AstNode::Variable(_) => Some(Proof::Refl(CoreExpr::Var(0))),
        AstNode::Symbol(_) => Some(Proof::Refl(CoreExpr::Var(0))),
        AstNode::Call { function, arguments, .. } => if comparison_name(*function) is Some {
            None
        } else {
            applied_proof(
                kernel,
                term_of(*function, table),
                core_proof(*function, table, kernel),
                terms_of(arguments, arguments.len() as int, table),
                core_proofs(arguments, arguments.len() as int, table, kernel),
            )
        },
        AstNode::Lambda { parameters, body, .. } => abstracted_proof(
            core_proof(*body, table, kernel),
            parameters.len() as nat,
        ),
        AstNode::Let { bindings, body, .. } => applied_proof(
            kernel,
            lambdas(term_of(*body, table), bindings.len() as nat),
            abstracted_proof(core_proof(*body, table, kernel), bindings.len() as nat),
            values_of(bindings, bindings.len() as int, table),
            bound_proofs(bindings, bindings.len() as int, table, kernel),
        ),
        AstNode::Letrec { bindings, body, .. } => applied_proof(
            kernel,
            lambdas(term_of(*body, table), bindings.len() as nat),
            abstracted_proof(core_proof(*body, table, kernel), bindings.len() as nat),
            values_of(bindings, bindings.len() as int, table),
            bound_proofs(bindings, bindings.len() as int, table, kernel),
        ),
        AstNode::If { then_branch, .. } => core_proof(*then_branch, table, kernel),
        AstNode::TrustTier { expression, .. } => core_proof(*expression, table, kernel),
        AstNode::Cons { car, cdr, .. } => match (core_proof(*car, table, kernel), core_proof(*cdr, table, kernel)) {
            (Some(a), Some(d)) => Some(Proof::CongApp { proof_f: Box::new(a), proof_a: Box::new(d) }),
            _ => kernel_proof(
                kernel,
                CoreExpr::Pair(Box::new(term_of(*car, table)), Box::new(term_of(*cdr, table))),
            ),
        },
        AstNode::FfiCall { .. } => None,
        _ => Some(Proof::Refl(CoreExpr::Nat(0))),
    }
}

/// The proofs of the first `k` trees of `v`, in order.
pub open spec fn core_proofs(
    v: Vec<AstNode>,
    k: int,
    table: Seq<(String, u64)>,
    kernel: Seq<(CoreExpr, Option<Proof>)>,
) -> Seq<Option<Proof>>
    decreases v, k,
{
    if k <= 0 || k > v.len() {
        seq![]
    } else {
        core_proofs(v, k - 1, table, kernel).push(core_proof(v[k - 1], table, kernel))
    }
}

/// The proofs of the values of the first `k` bindings of `v`, in order.
pub open spec fn bound_proofs(
    v: Vec<(String, AstNode)>,
    k: int,
    table: Seq<(String, u64)>,
    kernel: Seq<(CoreExpr, Option<Proof>)>,
) -> Seq<Option<Proof>>
    decreases v, k,
{
    if k <= 0 || k > v.len() {
        seq![]
    } else {
        bound_proofs(v, k - 1, table, kernel).push(core_proof(v[k - 1].1, table, kernel))
    }
}

/// Are two core terms the same.
pub fn core_expr_eq(a: &CoreExpr, b: &CoreExpr) -> (r: bool)
    ensures
        r == (*a == *b),
    decreases *a,
{
    match (a, b) {
        (CoreExpr::Var(x), CoreExpr::Var(y)) => *x == *y,
        (CoreExpr::Lam(x), CoreExpr::Lam(y)) => core_expr_eq(&**x, &**y),
        (CoreExpr::App(f, x), CoreExpr::App(g, y)) => core_expr_eq(&**f, &**g) && core_expr_eq(&**x, &**y),
        (CoreExpr::Nat(x), CoreExpr::Nat(y)) => *x == *y,
        (CoreExpr::Pair(x, u), CoreExpr::Pair(y, w)) => core_expr_eq(&**x, &**y) && core_expr_eq(&**u, &**w),
        _ => false,
    }
}

/// A copy of a core term.
pub fn copy_core_expr(e: &CoreExpr) -> (r: CoreExpr)
    ensures
        r == *e,
    decreases *e,
{
    match e {
        CoreExpr::Var(x) => CoreExpr::Var(*x),
        CoreExpr::Lam(b) => CoreExpr::Lam(Box::new(copy_core_expr(&**b))),
        CoreExpr::App(f, a) => CoreExpr::App(Box::new(copy_core_expr(&**f)), Box::new(copy_core_expr(&**a))),
        CoreExpr::Nat(n) => CoreExpr::Nat(*n),
        CoreExpr::Pair(a, d) => CoreExpr::Pair(Box::new(copy_core_expr(&**a)), Box::new(copy_core_expr(&**d))),
    }
}

/// A copy of a proof.
pub fn copy_proof(p: &Proof) -> (r: Proof)
    ensures
        r == *p,
    decreases *p,
{
    match p {
        Proof::Refl(e) => Proof::Refl(copy_core_expr(e)),
        Proof::CongApp { proof_f, proof_a } => Proof::CongApp {
            proof_f: Box::new(copy_proof(&**proof_f)),
            proof_a: Box::new(copy_proof(&**proof_a)),
        },
        Proof::CongLam { proof_b } => Proof::CongLam { proof_b: Box::new(copy_proof(&**proof_b)) },
        Proof::Trans { proof_a, proof_b } => Proof::Trans {
            proof_a: Box::new(copy_proof(&**proof_a)),
            proof_b: Box::new(copy_proof(&**proof_b)),
        },
        Proof::BetaStep { redex, contractum } => Proof::BetaStep {
            redex: copy_core_expr(redex),
            contractum: copy_core_expr(contractum),
        },
        Proof::EtaStep { redex, contractum } => Proof::EtaStep {
            redex: copy_core_expr(redex),
            contractum: copy_core_expr(contractum),
        },
    }
}

/// The proof the kernel gives for `e` (see `kernel_proof`).
pub(crate) fn kernel_lookup(kernel: &Vec<(CoreExpr, Option<Proof>)>, e: &CoreExpr) -> (r: Option<Proof>)
    ensures
        r == kernel_proof(kernel@, *e),
{
    let mut i: usize = 0;
    while i < kernel.len()
        invariant
            i <= kernel@.len(),
            kernel_proof(kernel@, *e) == kernel_proof_from(kernel@, *e, i as int),
        decreases kernel@.len() - i,
    {
        if core_expr_eq(&kernel[i].0, e) {
            return match &kernel[i].1 {
                Some(p) => Some(copy_proof(p)),
                None => None,
            };
        }
        i = i + 1;
    }
    None
}

/// Does `r` report the outcome of translating `n` with its proof: the term
/// `core_term` gives and the proof `core_proof` gives, or the error that
/// stops the translation.
pub open spec fn proof_outcome(
    n: AstNode,
    table: Seq<(String, u64)>,
    kernel: Seq<(CoreExpr, Option<Proof>)>,
    r: Result<(CoreExpr, Option<Proof>), CompilationError>,
) -> bool {
    match core_term(n, table) {
        Ok(e) => r matches Ok((x, p)) && x == e && p == core_proof(n, table, kernel),
        Err(m) => r matches Err(err) && is_core_error(err, m),
    }
}

/// The terms of a list of terms with proofs.
pub open spec fn terms_part(s: Seq<(CoreExpr, Option<Proof>)>) -> Seq<CoreExpr> {
    s.map_values(|x: (CoreExpr, Option<Proof>)| x.0)
}

/// The proofs of a list of terms with proofs.
pub open spec fn proofs_part(s: Seq<(CoreExpr, Option<Proof>)>) -> Seq<Option<Proof>> {
    s.map_values(|x: (CoreExpr, Option<Proof>)| x.1)
}

/// Translates a tree to a core term together with the proof that the front
/// end builds for it (see `core_term` and `core_proof`). Float literals are
/// looked up in `floats` as for `compile_ast_to_core_expr`, and where a part
/// has no proof, the kernel's proof of the term is looked up in `kernel`.
pub fn compile_ast_to_core_expr_with_proofs(
    ast: &AstNode,
    floats: &Vec<(String, u64)>,
    kernel: &Vec<(CoreExpr, Option<Proof>)>,
) -> (r: Result<(CoreExpr, Option<Proof>), CompilationError>)
    ensures
        proof_outcome(*ast, floats@, kernel@, r),
    decreases 2 * tree_size(*ast) + 1,
{
    match ast {
        AstNode::Literal(l) => {
            let t = literal_core_term(l, floats);
            let t2 = copy_core_expr(&t);
            Ok((t, Some(Proof::Refl(t2))))
        },
        AstNode::Variable(_) => Ok((CoreExpr::Var(0), Some(Proof::Refl(CoreExpr::Var(0))))),
        AstNode::Symbol(_) => Ok((CoreExpr::Var(0), Some(Proof::Refl(CoreExpr::Var(0))))),
        AstNode::Call { function, arguments, .. } => {
            if let AstNode::Symbol(sym) = &**function {
                if str_eq(sym.as_str(), ">") || str_eq(sym.as_str(), "<") || str_eq(sym.as_str(), "=") {
                    if arguments.len() != 2 {
                        let head = concat2(sym.as_str(), " expects exactly 2 arguments, got ");
                        let count = decimal_string(arguments.len() as u64);
                        let message = concat2(head.as_str(), count.as_str());
                        return Err(CompilationError::ParseError { message, location: SourceLocation::default() });
                    }
                    return match compile_core_terms(arguments, 2, floats) {
                        Err(e) => Err(e),
                        Ok(_) => Ok((CoreExpr::Nat(0), None)),
                    };
                }
            }
            let (f, fp) = match compile_ast_to_core_expr_with_proofs(function, floats, kernel) {
                Ok(x) => x,
                Err(e) => {
                    return Err(e);
                },
            };
            let args = match compile_terms_with_proofs(arguments, arguments.len(), floats, kernel) {
                Ok(a) => a,
                Err(e) => {
                    return Err(e);
                },
            };
            Ok(apply_with_proofs(kernel, f, fp, args))
        },
        AstNode::Lambda { parameters, body, .. } => {
            let (b, bp) = match compile_ast_to_core_expr_with_proofs(body, floats, kernel) {
                Ok(x) => x,
                Err(e) => {
                    return Err(e);
                },
            };
            Ok(abstract_with_proof(b, bp, parameters.len()))
        },
        AstNode::Let { bindings, body, .. } => binding_form_with_proofs(bindings, body, floats, kernel),
        AstNode::Letrec { bindings, body, .. } => binding_form_with_proofs(bindings, body, floats, kernel),
        AstNode::If { condition, then_branch, else_branch, .. } => {
            match compile_ast_to_core_expr_with_proofs(condition, floats, kernel) {
                Ok(_) => {},
                Err(e) => {
                    return Err(e);
                },
            }
            let t = match compile_ast_to_core_expr_with_proofs(then_branch, floats, kernel) {
                Ok(x) => x,
                Err(e) => {
                    return Err(e);
                },
            };
            match compile_ast_to_core_expr_with_proofs(else_branch, floats, kernel) {
                Ok(_) => Ok(t),
                Err(e) => Err(e),
            }
        },
        AstNode::TrustTier { expression, .. } => compile_ast_to_core_expr_with_proofs(expression, floats, kernel),
        AstNode::Cons { car, cdr, .. } => {
            let (a, ap) = match compile_ast_to_core_expr_with_proofs(car, floats, kernel) {
                Ok(x) => x,
                Err(e) => {
                    return Err(e);
                },
            };
            let (d, dp) = match compile_ast_to_core_expr_with_proofs(cdr, floats, kernel) {
                Ok(x) => x,
                Err(e) => {
                    return Err(e);
                },
            };
            let pair_proof = match (ap, dp) {
                (Some(x), Some(y)) => Some(Proof::CongApp { proof_f: Box::new(x), proof_a: Box::new(y) }),
                (_, _) => {
                    let pair = CoreExpr::Pair(Box::new(copy_core_expr(&a)), Box::new(copy_core_expr(&d)));
                    kernel_lookup(kernel, &pair)
                },
            };
            Ok((CoreExpr::Pair(Box::new(a), Box::new(d)), pair_proof))
        },
        AstNode::FfiCall { .. } => Ok((CoreExpr::Nat(0), None)),
        _ => Ok((CoreExpr::Nat(0), Some(Proof::Refl(CoreExpr::Nat(0))))),
    }
}

/// The term and proof of a `let` or `letrec` with these bindings and body.
fn binding_form_with_proofs(
    bindings: &Vec<(String, AstNode)>,
    body: &AstNode,
    floats: &Vec<(String, u64)>,
    kernel: &Vec<(CoreExpr, Option<Proof>)>,
) -> (r: Result<(CoreExpr, Option<Proof>), CompilationError>)
    ensures
        match core_term(*body, floats@) {
            Err(m) => r matches Err(err) && is_core_error(err, m),
            Ok(b) => match bound_values(*bindings, bindings@.len() as int, floats@) {
                Err(m) => r matches Err(err) && is_core_error(err, m),
                Ok(vs) => r matches Ok((x, p)) && x == apply_all(lambdas(b, bindings@.len() as nat), vs)
                    && p == applied_proof(
                    kernel@,
                    lambdas(b, bindings@.len() as nat),
                    abstracted_proof(core_proof(*body, floats@, kernel@), bindings@.len() as nat),
                    vs,
                    bound_proofs(*bindings, bindings@.len() as int, floats@, kernel@),
                ),
            },
        },
    decreases 2 * (tree_size(*body) + bound_trees_size(*bindings, bindings@.len() as int)) + 2,
{
    let (b, bp) = match compile_ast_to_core_expr_with_proofs(body, floats, kernel) {
        Ok(x) => x,
        Err(e) => {
            return Err(e);
        },
    };
    let vals = match compile_values_with_proofs(bindings, floats, kernel) {
        Ok(v) => v,
        Err(e) => {
            return Err(e);
        },
    };
    let (lb, lp) = abstract_with_proof(b, bp, bindings.len());
    Ok(apply_with_proofs(kernel, lb, lp, vals))
}

/// The terms and proofs of the first `k` trees of `v`.
#[verifier::loop_isolation(false)]
fn compile_terms_with_proofs(
    v: &Vec<AstNode>,
    k: usize,
    floats: &Vec<(String, u64)>,
    kernel: &Vec<(CoreExpr, Option<Proof>)>,
) -> (r: Result<Vec<(CoreExpr, Option<Proof>)>, CompilationError>)
    requires
        k <= v@.len(),
    ensures
        match core_terms(*v, k as int, floats@) {
            Ok(s) => r matches Ok(x) && terms_part(x@) == s && proofs_part(x@) == core_proofs(
                *v,
                k as int,
                floats@,
                kernel@,
            ),
            Err(m) => r matches Err(err) && is_core_error(err, m),
        },
    decreases 2 * trees_size(*v, k as int) + 2,
{
    let mut out: Vec<(CoreExpr, Option<Proof>)> = Vec::new();
    assert(terms_part(out@) =~= Seq::<CoreExpr>::empty());
    assert(proofs_part(out@) =~= Seq::<Option<Proof>>::empty());
    let mut i: usize = 0;
    while i < k
        invariant
            i <= k <= v@.len(),
            core_terms(*v, i as int, floats@) == Ok::<Seq<CoreExpr>, Seq<char>>(terms_part(out@)),
            proofs_part(out@) == core_proofs(*v, i as int, floats@, kernel@),
        decreases k - i,
    {
        proof {
            lemma_trees_size(*v, i as int, k as int);
        }
        match compile_ast_to_core_expr_with_proofs(&v[i], floats, kernel) {
            Ok(x) => {
                let ghost before = out@;
                out.push(x);
                assert(terms_part(out@) =~= terms_part(before).push(x.0));
                assert(proofs_part(out@) =~= proofs_part(before).push(x.1));
            },
            Err(e) => {
                proof {
                    lemma_core_terms_err(*v, i as int + 1, k as int, floats@);
                }
                return Err(e);
            },
        }
        i = i + 1;
    }
    Ok(out)
}

/// The terms and proofs of the values of `v`, in binding order.
#[verifier::loop_isolation(false)]
fn compile_values_with_proofs(
    v: &Vec<(String, AstNode)>,
    floats: &Vec<(String, u64)>,
    kernel: &Vec<(CoreExpr, Option<Proof>)>,
) -> (r: Result<Vec<(CoreExpr, Option<Proof>)>, CompilationError>)
    ensures
        match bound_values(*v, v@.len() as int, floats@) {
            Ok(s) => r matches Ok(x) && terms_part(x@) == s && proofs_part(x@) == bound_proofs(
                *v,
                v@.len() as int,
                floats@,
                kernel@,
            ),
            Err(m) => r matches Err(err) && is_core_error(err, m),
        },
    decreases 2 * bound_trees_size(*v, v@.len() as int) + 2,
{
    let n = v.len();
    let mut out: Vec<(CoreExpr, Option<Proof>)> = Vec::new();
    assert(terms_part(out@) =~= Seq::<CoreExpr>::empty());
    assert(proofs_part(out@) =~= Seq::<Option<Proof>>::empty());
    let mut i: usize = 0;
    while i < n
        invariant
            i <= n == v@.len(),
            bound_values(*v, i as int, floats@) == Ok::<Seq<CoreExpr>, Seq<char>>(terms_part(out@)),
            proofs_part(out@) == bound_proofs(*v, i as int, floats@, kernel@),
        decreases n - i,
    {
        proof {
            lemma_bound_trees_size(*v, i as int, n as int);
        }
        match compile_ast_to_core_expr_with_proofs(&v[i].1, floats, kernel) {
            Ok(x) => {
                let ghost before = out@;
                out.push(x);
                assert(terms_part(out@) =~= terms_part(before).push(x.0));
                assert(proofs_part(out@) =~= proofs_part(before).push(x.1));
            },
            Err(e) => {
                proof {
                    lemma_bound_values_err(*v, i as int + 1, n as int, floats@);
                }
                return Err(e);
            },
        }
        i = i + 1;
    }
    Ok(out)
}

/// `f` (with proof `fp`) applied to each of `args` in turn, with the proof
/// of the applications (see `applied_proof`).
fn apply_with_proofs(
    kernel: &Vec<(CoreExpr, Option<Proof>)>,
    f: CoreExpr,
    fp: Option<Proof>,
    args: Vec<(CoreExpr, Option<Proof>)>,
) -> (r: (CoreExpr, Option<Proof>))
    ensures
        r.0 == apply_all(f, terms_part(args@)),
        r.1 == applied_proof(kernel@, f, fp, terms_part(args@), proofs_part(args@)),
{
    let ghost all = args@;
    let ghost f0 = f;
    let ghost fp0 = fp;
    let n: usize = args.len();
    let mut rest = args;
    let mut result = f;
    let mut combined = fp;
    let mut i: usize = 0;
    while rest.len() > 0
        invariant
            i <= all.len() == n,
            i + rest@.len() == all.len(),
            rest@ == all.skip(i as int),
            result == apply_all(f0, terms_part(all).take(i as int)),
            combined == applied_proof(kernel@, f0, fp0, terms_part(all).take(i as int), proofs_part(all).take(i as int)),
        decreases rest@.len(),
    {
        let ghost ts = terms_part(all).take(i as int + 1);
        let ghost ps = proofs_part(all).take(i as int + 1);
        assert(ts.drop_last() =~= terms_part(all).take(i as int));
        assert(ps.drop_last() =~= proofs_part(all).take(i as int));
        let (a, ap) = rest.remove(0);
        assert(ts.last() == a);
        assert(ps.last() == ap);
        let step: Option<Proof> = match ap {
            Some(q) => match &combined {
                Some(c) => Some(Proof::CongApp { proof_f: Box::new(copy_proof(c)), proof_a: Box::new(q) }),
                None => {
                    let app = CoreExpr::App(Box::new(copy_core_expr(&result)), Box::new(copy_core_expr(&a)));
                    kernel_lookup(kernel, &app)
                },
            },
            None => {
                let app = CoreExpr::App(Box::new(copy_core_expr(&result)), Box::new(copy_core_expr(&a)));
                kernel_lookup(kernel, &app)
            },
        };
        combined = match step {
            None => combined,
            Some(s) => match combined {
                Some(c) => Some(Proof::Trans { proof_a: Box::new(c), proof_b: Box::new(s) }),
                None => Some(s),
            },
        };
        result = CoreExpr::App(Box::new(result), Box::new(a));
        assert(rest@ =~= all.skip(i as int + 1));
        i = i + 1;
    }
    assert(terms_part(all).take(n as int) =~= terms_part(all));
    assert(proofs_part(all).take(n as int) =~= proofs_part(all));
    (result, combined)
}

/// `n` abstractions around `body`, with the body's proof under one
/// congruence per abstraction.
fn abstract_with_proof(body: CoreExpr, bp: Option<Proof>, n: usize) -> (r: (CoreExpr, Option<Proof>))
    ensures
        r.0 == lambdas(body, n as nat),
        r.1 == abstracted_proof(bp, n as nat),
{
    let ghost b = body;
    let ghost p = bp;
    let mut result = body;
    let mut pf = bp;
    let mut k: usize = 0;
    while k < n
        invariant
            k <= n,
            result == lambdas(b, k as nat),
            pf == abstracted_proof(p, k as nat),
        decreases n - k,
    {
        result = CoreExpr::Lam(Box::new(result));
        pf = match pf {
            Some(q) => Some(Proof::CongLam { proof_b: Box::new(q) }),
            None => None,
        };
        k = k + 1;
    }
    (result, pf)
}

} // verus!
