//! Whether a tree refers to a variable, with the shadowing that lambdas,
//! lets and macro parameters introduce. Used to find the recursive
//! references of a function body to the name it is bound to.
use vstd::prelude::*;
use crate::ast::{AstNode, tree_size, trees_size, bound_trees_size, lemma_trees_size,
    lemma_bound_trees_size};
use crate::text::str_eq;

verus! {

/// Is `x` one of `names`.
pub open spec fn names_contain(names: Seq<String>, x: Seq<char>) -> bool {
    exists|i: int| 0 <= i < names.len() && names[i]@ == x
}

/// Is `x` bound by one of `bindings`.
pub open spec fn binds(bindings: Seq<(String, AstNode)>, x: Seq<char>) -> bool {
    exists|i: int| 0 <= i < bindings.len() && bindings[i].0@ == x
}

/// Does `n` refer to `x`: a variable or symbol named `x`; a lambda or
/// macro definition whose parameters do not include `x` and whose body
/// refers to it; a let or recursive let with a value, bound to another
/// name, that refers to it, or not binding `x` and with a body that refers
/// to it; a definition whose value refers to it; any other node with a
/// child that refers to it.
pub open spec fn refers_to(n: AstNode, x: Seq<char>) -> bool
    decreases n, 0int,
{
    match n {
        AstNode::Variable(v) => v@ == x,
        AstNode::Symbol(s) => s@ == x,
        AstNode::Lambda { parameters, body, .. } => !names_contain(parameters@, x) && refers_to(
            *body,
            x,
        ),
        AstNode::MacroDefinition { parameters, body, .. } => !names_contain(parameters@, x)
            && refers_to(*body, x),
        AstNode::Call { function, arguments, .. } => refers_to(*function, x) || any_refers(
            arguments,
            arguments.len() as int,
            x,
        ),
        AstNode::Let { bindings, body, .. } => any_value_refers(bindings, bindings.len() as int, x) || (
        !binds(bindings@, x) && refers_to(*body, x)),
        AstNode::Letrec { bindings, body, .. } => any_value_refers(bindings, bindings.len() as int, x)
            || (!binds(bindings@, x) && refers_to(*body, x)),
        AstNode::If { condition, then_branch, else_branch, .. } => refers_to(*condition, x) || refers_to(
            *then_branch,
            x,
        ) || refers_to(*else_branch, x),
        AstNode::TrustTier { expression, .. } => refers_to(*expression, x),
        AstNode::MacroExpansion { arguments, .. } => any_refers(arguments, arguments.len() as int, x),
        AstNode::FfiCall { arguments, .. } => any_refers(arguments, arguments.len() as int, x),
        AstNode::List { elements, .. } => any_refers(elements, elements.len() as int, x),
        AstNode::Cons { car, cdr, .. } => refers_to(*car, x) || refers_to(*cdr, x),
        AstNode::Define { value, .. } => refers_to(*value, x),
        _ => false,
    }
}

/// Does one of the first `k` trees of `v` refer to `x`.
pub open spec fn any_refers(v: Vec<AstNode>, k: int, x: Seq<char>) -> bool
    decreases v, k,
{
    if k <= 0 || k > v.len() {
        false
    } else {
        any_refers(v, k - 1, x) || refers_to(v[k - 1], x)
    }
}

/// Does the value of one of the first `k` bindings of `v`, bound to a name
/// other than `x`, refer to `x`.
pub open spec fn any_value_refers(v: Vec<(String, AstNode)>, k: int, x: Seq<char>) -> bool
    decreases v, k,
{
    if k <= 0 || k > v.len() {
        false
    } else {
        any_value_refers(v, k - 1, x) || (v[k - 1].0@ != x && refers_to(v[k - 1].1, x))
    }
}

/// Is `x` one of `names`.
fn contains_name(names: &Vec<String>, x: &str) -> (r: bool)
    ensures
        r == names_contain(names@, x@),
{
    let mut i: usize = 0;
    while i < names.len()
        invariant
            i <= names@.len(),
            forall|j: int| 0 <= j < i ==> names@[j]@ != x@,
        decreases names@.len() - i,
    {
        if str_eq(names[i].as_str(), x) {
            return true;
        }
        i = i + 1;
    }
    false
}

/// Does a tree refer to a variable (see `refers_to`).
pub fn references_variable(node: &AstNode, var_name: &str) -> (r: bool)
    ensures
        r == refers_to(*node, var_name@),
    decreases 2 * tree_size(*node),
{
    match node {
        AstNode::Variable(name) => str_eq(name.as_str(), var_name),
        AstNode::Symbol(name) => str_eq(name.as_str(), var_name),
        AstNode::Lambda { parameters, body, .. } => {
            if contains_name(parameters, var_name) {
                false
            } else {
                references_variable(body, var_name)
            }
        },
        AstNode::MacroDefinition { parameters, body, .. } => {
            if contains_name(parameters, var_name) {
                false
            } else {
                references_variable(body, var_name)
            }
        },
        AstNode::Call { function, arguments, .. } => references_variable(function, var_name)
            || any_references(arguments, var_name),
        AstNode::Let { bindings, body, .. } => {
            let in_bindings = any_value_references(bindings, var_name);
            let shadowed = binds_name(bindings, var_name);
            in_bindings || (!shadowed && references_variable(body, var_name))
        },
        AstNode::Letrec { bindings, body, .. } => {
            let in_bindings = any_value_references(bindings, var_name);
            let shadowed = binds_name(bindings, var_name);
            in_bindings || (!shadowed && references_variable(body, var_name))
        },
        AstNode::If { condition, then_branch, else_branch, .. } => references_variable(condition, var_name)
            || references_variable(then_branch, var_name) || references_variable(else_branch, var_name),
        AstNode::TrustTier { expression, .. } => references_variable(expression, var_name),
        AstNode::MacroExpansion { arguments, .. } => any_references(arguments, var_name),
        AstNode::FfiCall { arguments, .. } => any_references(arguments, var_name),
        AstNode::List { elements, .. } => any_references(elements, var_name),
        AstNode::Cons { car, cdr, .. } => references_variable(car, var_name) || references_variable(
            cdr,
            var_name,
        ),
        AstNode::Define { value, .. } => references_variable(value, var_name),
        _ => false,
    }
}

/// Does one of the trees of `v` refer to `x`.
fn any_references(v: &Vec<AstNode>, x: &str) -> (r: bool)
    ensures
        r == any_refers(*v, v@.len() as int, x@),
    decreases 2 * trees_size(*v, v@.len() as int) + 1,
{
    let mut i: usize = 0;
    while i < v.len()
        invariant
            i <= v@.len(),
            !any_refers(*v, i as int, x@),
        decreases v@.len() - i,
    {
        proof {
            lemma_trees_size(*v, i as int, v@.len() as int);
        }
        if references_variable(&v[i], x) {
            proof {
                lemma_any_refers_grows(*v, i as int + 1, v@.len() as int, x@);
            }
            return true;
        }
        i = i + 1;
    }
    false
}

/// Does the value of one of the bindings of `v`, bound to a name other
/// than `x`, refer to `x`.
fn any_value_references(v: &Vec<(String, AstNode)>, x: &str) -> (r: bool)
    ensures
        r == any_value_refers(*v, v@.len() as int, x@),
    decreases 2 * bound_trees_size(*v, v@.len() as int) + 1,
{
    let mut i: usize = 0;
    while i < v.len()
        invariant
            i <= v@.len(),
            !any_value_refers(*v, i as int, x@),
        decreases v@.len() - i,
    {
        proof {
            lemma_bound_trees_size(*v, i as int, v@.len() as int);
        }
        if !str_eq(v[i].0.as_str(), x) && references_variable(&v[i].1, x) {
            proof {
                lemma_any_value_refers_grows(*v, i as int + 1, v@.len() as int, x@);
            }
            return true;
        }
        i = i + 1;
    }
    false
}

/// Is `x` bound by one of `v`.
fn binds_name(v: &Vec<(String, AstNode)>, x: &str) -> (r: bool)
    ensures
        r == binds(v@, x@),
{
    let mut i: usize = 0;
    while i < v.len()
        invariant
            i <= v@.len(),
            forall|j: int| 0 <= j < i ==> v@[j].0@ != x@,
        decreases v@.len() - i,
    {
        if str_eq(v[i].0.as_str(), x) {
            return true;
        }
        i = i + 1;
    }
    false
}

/// A reference among the first `i` trees is one among the first `k >= i`.
proof fn lemma_any_refers_grows(v: Vec<AstNode>, i: int, k: int, x: Seq<char>)
    requires
        0 <= i <= k <= v.len(),
        any_refers(v, i, x),
    ensures
        any_refers(v, k, x),
    decreases k - i,
{
    if k > i {
        lemma_any_refers_grows(v, i, k - 1, x);
    }
}

/// A reference among the first `i` bindings is one among the first `k >= i`.
proof fn lemma_any_value_refers_grows(v: Vec<(String, AstNode)>, i: int, k: int, x: Seq<char>)
    requires
        0 <= i <= k <= v.len(),
        any_value_refers(v, i, x),
    ensures
        any_value_refers(v, k, x),
    decreases k - i,
{
    if k > i {
        lemma_any_value_refers_grows(v, i, k - 1, x);
    }
}

} // verus!
