//! The capabilities that a program declares: those that its
//! `require-capability` and `has-capability?` forms name by variant name
//! (such as `IoReadSensor`), wherever they occur in calls, lambdas, `let`s,
//! conditionals, lists, pairs, foreign calls and macro uses.
use vstd::prelude::*;
use crate::ast::AstNode;
use crate::capability_analyzer::add_capability;
use crate::error::{CapabilityViolation, CompilationError, default_location, unknown_location};
use crate::physics::{Capability, capability_from_name_spec, string_to_capability, capability_name, capability_name_spec};
use crate::trust_tier::{TrustTier, tier_grants, tier_name_spec};

verus! {

/// The capabilities that the expression `n` declares.
pub open spec fn declared_capabilities(n: AstNode) -> Set<Capability>
    decreases n, 0int,
{
    match n {
        AstNode::FfiCall { arguments, .. } => declared_in_nodes(arguments, arguments.len() as int),
        AstNode::RequireCapability { capability, .. } => match capability_from_name_spec(capability@) {
            Some(c) => set![c],
            None => Set::empty(),
        },
        AstNode::HasCapability { capability, .. } => match capability_from_name_spec(capability@) {
            Some(c) => set![c],
            None => Set::empty(),
        },
        AstNode::Call { function, arguments, .. } => declared_capabilities(*function).union(
            declared_in_nodes(arguments, arguments.len() as int),
        ),
        AstNode::Lambda { body, .. } => declared_capabilities(*body),
        AstNode::Let { bindings, body, .. } => declared_in_bindings(bindings, bindings.len() as int).union(
            declared_capabilities(*body),
        ),
        AstNode::If { condition, then_branch, else_branch, .. } => declared_capabilities(*condition).union(
            declared_capabilities(*then_branch),
        ).union(declared_capabilities(*else_branch)),
        AstNode::List { elements, .. } => declared_in_nodes(elements, elements.len() as int),
        AstNode::Cons { car, cdr, .. } => declared_capabilities(*car).union(declared_capabilities(*cdr)),
        AstNode::MacroExpansion { arguments, .. } => declared_in_nodes(arguments, arguments.len() as int),
        _ => Set::empty(),
    }
}

/// The capabilities that the first `k` nodes of `v` declare.
pub open spec fn declared_in_nodes(v: Vec<AstNode>, k: int) -> Set<Capability>
    decreases v, k,
{
    if k <= 0 || k > v.len() {
        Set::empty()
    } else {
        declared_in_nodes(v, k - 1).union(declared_capabilities(v[k - 1]))
    }
}

/// The capabilities that the values of the first `k` bindings of `v`
/// declare.
pub open spec fn declared_in_bindings(v: Vec<(String, AstNode)>, k: int) -> Set<Capability>
    decreases v, k,
{
    if k <= 0 || k > v.len() {
        Set::empty()
    } else {
        declared_in_bindings(v, k - 1).union(declared_capabilities(v[k - 1].1))
    }
}

/// The capabilities that an expression declares, each once (in no
/// particular order).
pub fn analyze_capabilities(ast: &AstNode) -> (r: Result<Vec<Capability>, CompilationError>)
    ensures
        r matches Ok(v) && v@.to_set() == declared_capabilities(*ast) && v@.no_duplicates(),
{
    let mut required_caps: Vec<Capability> = Vec::new();
    assert(required_caps@.to_set() =~= Set::<Capability>::empty());
    analyze_expression(ast, &mut required_caps);
    assert(required_caps@.to_set() =~= declared_capabilities(*ast));
    Ok(required_caps)
}

/// The suggestion attached to a capability that a tier does not grant.
pub open spec fn grant_suggestion(tier: TrustTier, c: Capability) -> Seq<char> {
    "Trust tier "@ + tier_name_spec(tier) + " does not grant required capability "@
        + capability_name_spec(c)
}

/// Checks that `tier` grants every capability of `required_caps`; fails on
/// the first that it does not grant.
pub fn validate_tier_capabilities(tier: TrustTier, required_caps: &Vec<Capability>) -> (r: Result<
    (),
    CompilationError,
>)
    ensures
        r is Ok <==> forall|i: int| 0 <= i < required_caps@.len() ==> tier_grants(tier, required_caps@[i]),
        r matches Err(e) ==> exists|i: int|
            0 <= i < required_caps@.len() && !tier_grants(tier, required_caps@[i]) && (forall|j: int|
                0 <= j < i ==> tier_grants(tier, required_caps@[j])) && (e matches CompilationError::CapabilityError(v)
                && v.required == required_caps@[i] && v.tier == tier && v.location == unknown_location()
                && v.suggestion@ == grant_suggestion(tier, required_caps@[i])),
{
    let mut i: usize = 0;
    while i < required_caps.len()
        invariant
            i <= required_caps@.len(),
            forall|j: int| 0 <= j < i ==> tier_grants(tier, required_caps@[j]),
        decreases required_caps@.len() - i,
    {
        let cap = required_caps[i];
        if !tier.allows_capability(&cap) {
            let mut m = String::from_str("Trust tier ");
            m.append(tier.name());
            m.append(" does not grant required capability ");
            m.append(capability_name(cap));
            return Err(CompilationError::CapabilityError(CapabilityViolation {
                required: cap,
                tier,
                location: default_location(),
                suggestion: m,
            }));
        }
        i = i + 1;
    }
    Ok(())
}

/// Adds to `required_caps` each capability that `ast` declares and it does
/// not hold yet.
#[verifier::loop_isolation(false)]
pub fn analyze_expression(ast: &AstNode, required_caps: &mut Vec<Capability>)
    requires
        old(required_caps)@.no_duplicates(),
    ensures
        final(required_caps)@.no_duplicates(),
        final(required_caps)@.to_set() == old(required_caps)@.to_set().union(declared_capabilities(*ast)),
    decreases ast,
{
    let ghost s0 = required_caps@.to_set();
    match ast {
        AstNode::FfiCall { arguments, .. } => {
            let mut i: usize = 0;
            while i < arguments.len()
                invariant
                    i <= arguments.len(),
                    required_caps@.no_duplicates(),
                    required_caps@.to_set() == s0.union(declared_in_nodes(*arguments, i as int)),
                decreases arguments.len() - i,
            {
                analyze_expression(&arguments[i], required_caps);
                i = i + 1;
                assert(required_caps@.to_set() =~= s0.union(declared_in_nodes(*arguments, i as int)));
            }
        },
        AstNode::RequireCapability { capability, .. } => {
            if let Some(cap) = string_to_capability(capability.as_str()) {
                add_capability(required_caps, cap);
            }
        },
        AstNode::HasCapability { capability, .. } => {
            if let Some(cap) = string_to_capability(capability.as_str()) {
                add_capability(required_caps, cap);
            }
        },
        AstNode::Call { function, arguments, .. } => {
            analyze_expression(&**function, required_caps);
            let ghost s1 = required_caps@.to_set();
            let mut i: usize = 0;
            while i < arguments.len()
                invariant
                    i <= arguments.len(),
                    required_caps@.no_duplicates(),
                    required_caps@.to_set() == s1.union(declared_in_nodes(*arguments, i as int)),
                decreases arguments.len() - i,
            {
                analyze_expression(&arguments[i], required_caps);
                i = i + 1;
                assert(required_caps@.to_set() =~= s1.union(declared_in_nodes(*arguments, i as int)));
            }
        },
        AstNode::Lambda { body, .. } => {
            analyze_expression(&**body, required_caps);
        },
        AstNode::Let { bindings, body, .. } => {
            let mut i: usize = 0;
            while i < bindings.len()
                invariant
                    i <= bindings.len(),
                    required_caps@.no_duplicates(),
                    required_caps@.to_set() == s0.union(declared_in_bindings(*bindings, i as int)),
                decreases bindings.len() - i,
            {
                analyze_expression(&bindings[i].1, required_caps);
                i = i + 1;
                assert(required_caps@.to_set() =~= s0.union(declared_in_bindings(*bindings, i as int)));
            }
            analyze_expression(&**body, required_caps);
        },
        AstNode::If { condition, then_branch, else_branch, .. } => {
            analyze_expression(&**condition, required_caps);
            analyze_expression(&**then_branch, required_caps);
            analyze_expression(&**else_branch, required_caps);
        },
        AstNode::List { elements, .. } => {
            let mut i: usize = 0;
            while i < elements.len()
                invariant
                    i <= elements.len(),
                    required_caps@.no_duplicates(),
                    required_caps@.to_set() == s0.union(declared_in_nodes(*elements, i as int)),
                decreases elements.len() - i,
            {
                analyze_expression(&elements[i], required_caps);
                i = i + 1;
                assert(required_caps@.to_set() =~= s0.union(declared_in_nodes(*elements, i as int)));
            }
        },
        AstNode::Cons { car, cdr, .. } => {
            analyze_expression(&**car, required_caps);
            analyze_expression(&**cdr, required_caps);
        },
        AstNode::MacroExpansion { arguments, .. } => {
            let mut i: usize = 0;
            while i < arguments.len()
                invariant
                    i <= arguments.len(),
                    required_caps@.no_duplicates(),
                    required_caps@.to_set() == s0.union(declared_in_nodes(*arguments, i as int)),
                decreases arguments.len() - i,
            {
                analyze_expression(&arguments[i], required_caps);
                i = i + 1;
                assert(required_caps@.to_set() =~= s0.union(declared_in_nodes(*arguments, i as int)));
            }
        },
        _ => {},
    }
    proof {
        assert(required_caps@.to_set() =~= s0.union(declared_capabilities(*ast)));
    }
}

} // verus!
