//! Runtime capability checks for the less trusted tiers, with the audit
//! trail of the checks inserted.
use vstd::prelude::*;
use crate::ast::AstNode;
use crate::capability_analyzer::{ffi_capability_spec, get_ffi_function_capability};
use crate::error::{SourceLocation, default_location, unknown_location};
use crate::physics::{Capability, OpCode, capability_from_kebab_spec, kebab_to_capability};
use crate::trust_tier::TrustTier;

verus! {

/// How a capability is checked.
#[derive(Debug, Clone, Copy, PartialEq, Eq, Structural)]
pub enum CheckType {
    /// Verified at compile time.
    Static,
    /// By an instruction inserted in the code.
    Runtime,
    /// Covered by a formal proof.
    Proof,
}

/// A capability check, for the audit trail.
#[derive(Debug, Clone, Copy, PartialEq, Eq, Structural)]
pub struct CapabilityCheck {
    /// Where the capability is needed.
    pub location: SourceLocation,
    /// The capability checked.
    pub capability: Capability,
    /// How it is checked.
    pub check_type: CheckType,
}

impl CapabilityCheck {
    /// A check of `capability`, needed at `location`, done as `check_type`
    /// says.
    pub fn new(location: SourceLocation, capability: Capability, check_type: CheckType) -> (r: Self)
        ensures
            r == (CapabilityCheck { location, capability, check_type }),
    {
        CapabilityCheck { location, capability, check_type }
    }
}

/// The capabilities that an expression needs checked, each with the place
/// that needs it, in source order: what `require-capability` and
/// `has-capability?` name (nothing where the name is unknown), what a
/// foreign call needs (`MacroUnsafe` for an unknown function), and
/// `MacroHygienic` for a macro definition; other nodes need what their
/// sub-expressions need.
pub open spec fn required_checks(n: AstNode) -> Seq<(Capability, SourceLocation)>
    decreases n, 0int,
{
    match n {
        AstNode::RequireCapability { capability, location } => match capability_from_kebab_spec(capability@) {
            Some(c) => seq![(c, location)],
            None => Seq::empty(),
        },
        AstNode::HasCapability { capability, location } => match capability_from_kebab_spec(capability@) {
            Some(c) => seq![(c, location)],
            None => Seq::empty(),
        },
        AstNode::FfiCall { function, location, .. } => match ffi_capability_spec(function@) {
            Some(c) => seq![(c, location)],
            None => seq![(Capability::MacroUnsafe, location)],
        },
        AstNode::MacroDefinition { .. } => seq![(Capability::MacroHygienic, unknown_location())],
        AstNode::Call { function, arguments, .. } => required_checks(*function) + checks_in_nodes(
            arguments,
            arguments.len() as int,
        ),
        AstNode::Lambda { body, .. } => required_checks(*body),
        AstNode::Let { bindings, body, .. } => checks_in_bindings(bindings, bindings.len() as int)
            + required_checks(*body),
        AstNode::If { condition, then_branch, else_branch, .. } => required_checks(*condition)
            + required_checks(*then_branch) + required_checks(*else_branch),
        AstNode::TrustTier { expression, .. } => required_checks(*expression),
        AstNode::MacroExpansion { arguments, .. } => checks_in_nodes(arguments, arguments.len() as int),
        AstNode::List { elements, .. } => checks_in_nodes(elements, elements.len() as int),
        AstNode::Cons { car, cdr, .. } => required_checks(*car) + required_checks(*cdr),
        _ => Seq::empty(),
    }
}

/// The checks that the first `k` nodes of `v` need, in order.
pub open spec fn checks_in_nodes(v: Vec<AstNode>, k: int) -> Seq<(Capability, SourceLocation)>
    decreases v, k,
{
    if k <= 0 || k > v.len() {
        Seq::empty()
    } else {
        checks_in_nodes(v, k - 1) + required_checks(v[k - 1])
    }
}

/// The checks that the values of the first `k` bindings of `v` need, in
/// order.
pub open spec fn checks_in_bindings(v: Vec<(String, AstNode)>, k: int) -> Seq<(Capability, SourceLocation)>
    decreases v, k,
{
    if k <= 0 || k > v.len() {
        Seq::empty()
    } else {
        checks_in_bindings(v, k - 1) + required_checks(v[k - 1].1)
    }
}

/// Puts one capability test (of capability index 0) before `bytecode` for
/// each check that `ast` needs, where the tier is empirical or
/// experimental, and lists the checks as runtime checks; more trusted tiers
/// get the code unchanged and no check.
pub fn insert_capability_checks(bytecode: Vec<OpCode>, ast: &AstNode, tier: TrustTier) -> (r: (
    Vec<OpCode>,
    Vec<CapabilityCheck>,
))
    ensures
        tier == TrustTier::Empirical || tier == TrustTier::Experimental ==> ({
            let checks = required_checks(*ast);
            &&& r.0@ == Seq::new(checks.len(), |i: int| OpCode::HasCap(0)) + bytecode@
            &&& r.1@ == checks.map_values(
                |c: (Capability, SourceLocation)|
                    CapabilityCheck { location: c.1, capability: c.0, check_type: CheckType::Runtime },
            )
        }),
        !(tier == TrustTier::Empirical || tier == TrustTier::Experimental) ==> r.0@ == bytecode@
            && r.1@.len() == 0,
{
    let mut bytecode = bytecode;
    let ghost original = bytecode@;
    let mut capability_audit: Vec<CapabilityCheck> = Vec::new();
    if tier == TrustTier::Empirical || tier == TrustTier::Experimental {
        let required = analyze_required_checks(ast);
        let mut i: usize = 0;
        while i < required.len()
            invariant
                i <= required@.len(),
                required@ == required_checks(*ast),
                bytecode@ == Seq::new(i as nat, |k: int| OpCode::HasCap(0)) + original,
                capability_audit@ == required@.take(i as int).map_values(
                    |c: (Capability, SourceLocation)|
                        CapabilityCheck { location: c.1, capability: c.0, check_type: CheckType::Runtime },
                ),
            decreases required@.len() - i,
        {
            let (capability, location) = required[i];
            let ghost before = bytecode@;
            bytecode.insert(0, OpCode::HasCap(0));
            capability_audit.push(CapabilityCheck::new(location, capability, CheckType::Runtime));
            proof {
                assert(bytecode@ =~= Seq::new((i + 1) as nat, |k: int| OpCode::HasCap(0)) + original);
                assert(required@.take(i as int + 1) =~= required@.take(i as int).push(required@[i as int]));
                assert(capability_audit@ =~= required@.take(i as int + 1).map_values(
                    |c: (Capability, SourceLocation)|
                        CapabilityCheck { location: c.1, capability: c.0, check_type: CheckType::Runtime },
                ));
            }
            i = i + 1;
        }
        assert(required@.take(required@.len() as int) =~= required@);
    }
    (bytecode, capability_audit)
}

/// The capabilities that `ast` needs checked, with the places that need
/// them, in source order.
#[verifier::loop_isolation(false)]
fn analyze_required_checks(ast: &AstNode) -> (r: Vec<(Capability, SourceLocation)>)
    ensures
        r@ == required_checks(*ast),
    decreases ast,
{
    let mut required: Vec<(Capability, SourceLocation)> = Vec::new();
    match ast {
        AstNode::RequireCapability { capability, location } => {
            if let Some(cap) = kebab_to_capability(capability.as_str()) {
                required.push((cap, *location));
            }
        },
        AstNode::HasCapability { capability, location } => {
            if let Some(cap) = kebab_to_capability(capability.as_str()) {
                required.push((cap, *location));
            }
        },
        AstNode::FfiCall { function, location, .. } => {
            match get_ffi_function_capability(function.as_str()) {
                Some(cap) => required.push((cap, *location)),
                None => required.push((Capability::MacroUnsafe, *location)),
            }
        },
        AstNode::MacroDefinition { .. } => {
            required.push((Capability::MacroHygienic, default_location()));
        },
        AstNode::Call { function, arguments, .. } => {
            let mut f = analyze_required_checks(&**function);
            required.append(&mut f);
            append_node_checks(&mut required, arguments);
        },
        AstNode::Lambda { body, .. } => {
            let mut b = analyze_required_checks(&**body);
            required.append(&mut b);
        },
        AstNode::Let { bindings, body, .. } => {
            let mut i: usize = 0;
            while i < bindings.len()
                invariant
                    i <= bindings.len(),
                    required@ == checks_in_bindings(*bindings, i as int),
                decreases bindings.len() - i,
            {
                let mut c = analyze_required_checks(&bindings[i].1);
                required.append(&mut c);
                i = i + 1;
            }
            let mut b = analyze_required_checks(&**body);
            required.append(&mut b);
        },
        AstNode::If { condition, then_branch, else_branch, .. } => {
            let mut c = analyze_required_checks(&**condition);
            required.append(&mut c);
            let mut t = analyze_required_checks(&**then_branch);
            required.append(&mut t);
            let mut e = analyze_required_checks(&**else_branch);
            required.append(&mut e);
        },
        AstNode::TrustTier { expression, .. } => {
            let mut x = analyze_required_checks(&**expression);
            required.append(&mut x);
        },
        AstNode::MacroExpansion { arguments, .. } => {
            append_node_checks(&mut required, arguments);
        },
        AstNode::List { elements, .. } => {
            append_node_checks(&mut required, elements);
        },
        AstNode::Cons { car, cdr, .. } => {
            let mut a = analyze_required_checks(&**car);
            required.append(&mut a);
            let mut d = analyze_required_checks(&**cdr);
            required.append(&mut d);
        },
        _ => {},
    }
    assert(required@ =~= required_checks(*ast));
    required
}

/// Appends the checks that the nodes of `v` need, in order.
fn append_node_checks(out: &mut Vec<(Capability, SourceLocation)>, v: &Vec<AstNode>)
    ensures
        final(out)@ == old(out)@ + checks_in_nodes(*v, v.len() as int),
    decreases v,
{
    let mut i: usize = 0;
    while i < v.len()
        invariant
            i <= v.len(),
            out@ == old(out)@ + checks_in_nodes(*v, i as int),
        decreases v.len() - i,
    {
        let ghost before = out@;
        let mut c = analyze_required_checks(&v[i]);
        out.append(&mut c);
        i = i + 1;
        assert(out@ =~= old(out)@ + checks_in_nodes(*v, i as int));
    }
}

} // verus!
