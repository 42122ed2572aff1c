//! Which capabilities a program needs: the capabilities that its
//! `require-capability` and `has-capability?` forms name, that its foreign
//! calls use and that its macro definitions need; and whether a trust tier
//! grants them.
use vstd::prelude::*;
use crate::ast::AstNode;
use crate::error::{CapabilityViolation, CompilationError, default_location, unknown_location};
use crate::physics::{Capability, capability_from_kebab_spec, kebab_to_capability, capability_name, capability_name_spec};
use crate::trust_tier::{TrustTier, tier_grants, tier_name_spec};
use crate::text::{str_eq, to_owned_string};

verus! {

/// The capability that a standard foreign function needs, if it is one.
pub open spec fn ffi_capability_spec(name: Seq<char>) -> Option<Capability> {
    if name == "read-sensor"@ {
        Some(Capability::IoReadSensor)
    } else if name == "write-actuator"@ {
        Some(Capability::IoWriteActuator)
    } else if name == "network-send"@ || name == "network-receive"@ {
        Some(Capability::IoNetwork)
    } else if name == "persist-write"@ || name == "persist-read"@ {
        Some(Capability::IoPersist)
    } else if name == "get-wall-clock"@ {
        Some(Capability::SysClock)
    } else if name == "spawn-actor"@ {
        Some(Capability::SysCreateActor)
    } else if name == "terminate-actor"@ {
        Some(Capability::SysTerminateActor)
    } else {
        None
    }
}

/// The capability that the standard foreign function `function_name`
/// needs, if it is one.
pub fn get_ffi_function_capability(function_name: &str) -> (r: Option<Capability>)
    ensures
        r == ffi_capability_spec(function_name@),
{
    if str_eq(function_name, "read-sensor") {
        Some(Capability::IoReadSensor)
    } else if str_eq(function_name, "write-actuator") {
        Some(Capability::IoWriteActuator)
    } else if str_eq(function_name, "network-send") || str_eq(function_name, "network-receive") {
        Some(Capability::IoNetwork)
    } else if str_eq(function_name, "persist-write") || str_eq(function_name, "persist-read") {
        Some(Capability::IoPersist)
    } else if str_eq(function_name, "get-wall-clock") {
        Some(Capability::SysClock)
    } else if str_eq(function_name, "spawn-actor") {
        Some(Capability::SysCreateActor)
    } else if str_eq(function_name, "terminate-actor") {
        Some(Capability::SysTerminateActor)
    } else {
        None
    }
}

/// Reads a kebab-case capability name (such as `io-read-sensor`).
pub fn parse_capability(cap_str: &str) -> (r: Result<Capability, CompilationError>)
    ensures
        capability_from_kebab_spec(cap_str@) matches Some(c) ==> r == Ok::<Capability, CompilationError>(c),
        capability_from_kebab_spec(cap_str@) is None ==> (r matches Err(
            CompilationError::ParseError { message, location },
        ) && message@ == "Unknown capability: "@ + cap_str@ && location == unknown_location()),
{
    match kebab_to_capability(cap_str) {
        Some(c) => Ok(c),
        None => {
            let mut m = String::from_str("Unknown capability: ");
            m.append(cap_str);
            Err(CompilationError::ParseError { message: m, location: default_location() })
        },
    }
}

/// The capabilities a node's own form needs, where its form needs any:
/// what `require-capability` and `has-capability?` name (nothing where the
/// name is unknown), what a foreign call needs (`MacroUnsafe` for an unknown
/// function), and `MacroHygienic` for a macro definition. Other nodes need
/// what their sub-expressions need.
pub open spec fn own_capabilities(n: AstNode) -> Option<Set<Capability>> {
    match n {
        AstNode::RequireCapability { capability, .. } => Some(
            match capability_from_kebab_spec(capability@) {
                Some(c) => set![c],
                None => Set::empty(),
            },
        ),
        AstNode::HasCapability { capability, .. } => Some(
            match capability_from_kebab_spec(capability@) {
                Some(c) => set![c],
                None => Set::empty(),
            },
        ),
        AstNode::FfiCall { function, .. } => Some(
            match ffi_capability_spec(function@) {
                Some(c) => set![c],
                None => set![Capability::MacroUnsafe],
            },
        ),
        AstNode::MacroDefinition { .. } => Some(set![Capability::MacroHygienic]),
        _ => None,
    }
}

/// The capabilities that the expression `n` needs.
pub open spec fn required_capabilities(n: AstNode) -> Set<Capability>
    decreases n, 0int,
{
    match own_capabilities(n) {
        Some(s) => s,
        None => match n {
            AstNode::Call { function, arguments, .. } => required_capabilities(*function).union(
                required_in_nodes(arguments, arguments.len() as int),
            ),
            AstNode::Lambda { body, .. } => required_capabilities(*body),
            AstNode::Let { bindings, body, .. } => required_in_bindings(
                bindings,
                bindings.len() as int,
            ).union(required_capabilities(*body)),
            AstNode::If { condition, then_branch, else_branch, .. } => required_capabilities(
                *condition,
            ).union(required_capabilities(*then_branch)).union(required_capabilities(*else_branch)),
            AstNode::TrustTier { expression, .. } => required_capabilities(*expression),
            AstNode::MacroExpansion { arguments, .. } => required_in_nodes(
                arguments,
                arguments.len() as int,
            ),
            AstNode::List { elements, .. } => required_in_nodes(elements, elements.len() as int),
            AstNode::Cons { car, cdr, .. } => required_capabilities(*car).union(
                required_capabilities(*cdr),
            ),
            _ => Set::empty(),
        },
    }
}

/// The capabilities that the first `k` nodes of `v` need.
pub open spec fn required_in_nodes(v: Vec<AstNode>, k: int) -> Set<Capability>
    decreases v, k,
{
    if k <= 0 || k > v.len() {
        Set::empty()
    } else {
        required_in_nodes(v, k - 1).union(required_capabilities(v[k - 1]))
    }
}

/// The capabilities that the values of the first `k` bindings of `v` need.
pub open spec fn required_in_bindings(v: Vec<(String, AstNode)>, k: int) -> Set<Capability>
    decreases v, k,
{
    if k <= 0 || k > v.len() {
        Set::empty()
    } else {
        required_in_bindings(v, k - 1).union(required_capabilities(v[k - 1].1))
    }
}

/// The direct sub-expressions of a node that are searched for capability
/// requirements, in source order.
pub open spec fn child_nodes(n: AstNode) -> Seq<AstNode> {
    match n {
        AstNode::Call { function, arguments, .. } => seq![*function] + arguments@,
        AstNode::Lambda { body, .. } => seq![*body],
        AstNode::Let { bindings, body, .. } => bindings@.map_values(|b: (String, AstNode)| b.1).push(
            *body,
        ),
        AstNode::If { condition, then_branch, else_branch, .. } => seq![
            *condition,
            *then_branch,
            *else_branch,
        ],
        AstNode::TrustTier { expression, .. } => seq![*expression],
        AstNode::MacroDefinition { body, .. } => seq![*body],
        AstNode::MacroExpansion { arguments, .. } => arguments@,
        AstNode::FfiCall { arguments, .. } => arguments@,
        AstNode::List { elements, .. } => elements@,
        AstNode::Cons { car, cdr, .. } => seq![*car, *cdr],
        _ => Seq::empty(),
    }
}

/// The nodes that a sequence of references points to.
pub open spec fn deref_nodes(s: Seq<&AstNode>) -> Seq<AstNode> {
    s.map_values(|r: &AstNode| *r)
}

/// The direct sub-expressions of `ast` that the capability analysis visits.
pub fn get_child_nodes(ast: &AstNode) -> (r: Vec<&AstNode>)
    ensures
        deref_nodes(r@) == child_nodes(*ast),
{
    let mut children: Vec<&AstNode> = Vec::new();
    match ast {
        AstNode::Call { function, arguments, .. } => {
            children.push(&**function);
            push_all(&mut children, arguments);
        },
        AstNode::Lambda { body, .. } => {
            children.push(&**body);
        },
        AstNode::Let { bindings, body, .. } => {
            let mut i: usize = 0;
            while i < bindings.len()
                invariant
                    i <= bindings@.len(),
                    deref_nodes(children@) == bindings@.take(i as int).map_values(|b: (String, AstNode)| b.1),
                decreases bindings@.len() - i,
            {
                let ghost prev = children@;
                children.push(&bindings[i].1);
                assert(deref_nodes(children@) =~= deref_nodes(prev).push(bindings@[i as int].1));
                i = i + 1;
                assert(bindings@.take(i as int).map_values(|b: (String, AstNode)| b.1)
                    =~= bindings@.take(i as int - 1).map_values(|b: (String, AstNode)| b.1).push(
                    bindings@[i as int - 1].1,
                ));
                assert(deref_nodes(children@) =~= bindings@.take(i as int).map_values(
                    |b: (String, AstNode)| b.1,
                ));
            }
            assert(bindings@.take(bindings@.len() as int) =~= bindings@);
            children.push(&**body);
        },
        AstNode::If { condition, then_branch, else_branch, .. } => {
            children.push(&**condition);
            children.push(&**then_branch);
            children.push(&**else_branch);
        },
        AstNode::TrustTier { expression, .. } => {
            children.push(&**expression);
        },
        AstNode::MacroDefinition { body, .. } => {
            children.push(&**body);
        },
        AstNode::MacroExpansion { arguments, .. } => {
            push_all(&mut children, arguments);
        },
        AstNode::FfiCall { arguments, .. } => {
            push_all(&mut children, arguments);
        },
        AstNode::List { elements, .. } => {
            push_all(&mut children, elements);
        },
        AstNode::Cons { car, cdr, .. } => {
            children.push(&**car);
            children.push(&**cdr);
        },
        _ => {},
    }
    proof {
        assert(deref_nodes(children@) =~= child_nodes(*ast));
        match ast {
            AstNode::Call { function, arguments, .. } => {
                assert(deref_nodes(children@) =~= seq![**function] + arguments@);
            },
            AstNode::If { condition, then_branch, else_branch, .. } => {
                assert(deref_nodes(children@) =~= seq![**condition, **then_branch, **else_branch]);
            },
            AstNode::Cons { car, cdr, .. } => {
                assert(deref_nodes(children@) =~= seq![**car, **cdr]);
            },
            _ => {},
        }
    }
    children
}

/// Appends a reference to every node of `nodes` to `out`.
fn push_all<'a>(out: &mut Vec<&'a AstNode>, nodes: &'a Vec<AstNode>)
    ensures
        deref_nodes(final(out)@) == deref_nodes(old(out)@) + nodes@,
{
    let mut i: usize = 0;
    while i < nodes.len()
        invariant
            i <= nodes@.len(),
            deref_nodes(out@) == deref_nodes(old(out)@) + nodes@.take(i as int),
        decreases nodes@.len() - i,
    {
        let ghost prev = out@;
        out.push(&nodes[i]);
        assert(deref_nodes(out@) =~= deref_nodes(prev).push(nodes@[i as int]));
        i = i + 1;
        assert(nodes@.take(i as int) =~= nodes@.take(i as int - 1).push(nodes@[i as int - 1]));
        assert(deref_nodes(out@) =~= deref_nodes(old(out)@) + nodes@.take(i as int));
    }
    assert(nodes@.take(nodes@.len() as int) =~= nodes@);
}


/// Adds `c` to the capabilities `out` unless it is there already.
pub fn add_capability(out: &mut Vec<Capability>, c: Capability)
    requires
        old(out)@.no_duplicates(),
    ensures
        final(out)@.no_duplicates(),
        final(out)@.to_set() == old(out)@.to_set().insert(c),
{
    let mut i: usize = 0;
    while i < out.len()
        invariant
            i <= out@.len(),
            out@ == old(out)@,
            old(out)@.no_duplicates(),
            forall|j: int| 0 <= j < i ==> out@[j] != c,
        decreases out@.len() - i,
    {
        if out[i] == c {
            assert(out@.to_set() =~= out@.to_set().insert(c));
            return;
        }
        i = i + 1;
    }
    out.push(c);
    proof {
        old(out)@.lemma_push_to_set_commute(c);
    }
}

/// Adds to `out` each capability of `more` that is not there already.
pub fn add_capabilities(out: &mut Vec<Capability>, more: &Vec<Capability>)
    requires
        old(out)@.no_duplicates(),
    ensures
        final(out)@.no_duplicates(),
        final(out)@.to_set() == old(out)@.to_set().union(more@.to_set()),
{
    let mut i: usize = 0;
    while i < more.len()
        invariant
            i <= more@.len(),
            out@.no_duplicates(),
            out@.to_set() == old(out)@.to_set().union(more@.take(i as int).to_set()),
        decreases more@.len() - i,
    {
        add_capability(out, more[i]);
        proof {
            more@.take(i as int).lemma_push_to_set_commute(more@[i as int]);
            assert(more@.take(i as int + 1) =~= more@.take(i as int).push(more@[i as int]));
            assert(out@.to_set() =~= old(out)@.to_set().union(more@.take(i as int + 1).to_set()));
        }
        i = i + 1;
    }
    assert(more@.take(more@.len() as int) =~= more@);
}

/// The capabilities that an expression needs, each once (in no particular
/// order).
#[verifier::loop_isolation(false)]
pub fn analyze_capabilities(ast: &AstNode) -> (r: Result<Vec<Capability>, CompilationError>)
    ensures
        r matches Ok(v) && v@.to_set() == required_capabilities(*ast) && v@.no_duplicates(),
    decreases ast,
{
    let mut caps: Vec<Capability> = Vec::new();
    proof {
        assert(caps@.to_set() =~= Set::<Capability>::empty());
    }
    match ast {
        AstNode::RequireCapability { capability, .. } => {
            if let Ok(c) = parse_capability(capability.as_str()) {
                add_capability(&mut caps, c);
            }
        },
        AstNode::HasCapability { capability, .. } => {
            if let Ok(c) = parse_capability(capability.as_str()) {
                add_capability(&mut caps, c);
            }
        },
        AstNode::FfiCall { function, .. } => {
            match get_ffi_function_capability(function.as_str()) {
                Some(c) => add_capability(&mut caps, c),
                None => add_capability(&mut caps, Capability::MacroUnsafe),
            }
        },
        AstNode::MacroDefinition { .. } => {
            add_capability(&mut caps, Capability::MacroHygienic);
        },
        AstNode::Call { function, arguments, .. } => {
            let f = match analyze_capabilities(&**function) {
                Ok(v) => v,
                Err(e) => {
                    return Err(e);
                },
            };
            add_capabilities(&mut caps, &f);
            let mut i: usize = 0;
            while i < arguments.len()
                invariant
                    i <= arguments.len(),
                    caps@.no_duplicates(),
                    caps@.to_set() == required_capabilities(**function).union(
                        required_in_nodes(*arguments, i as int),
                    ),
                decreases arguments.len() - i,
            {
                let a = match analyze_capabilities(&arguments[i]) {
                    Ok(v) => v,
                    Err(e) => {
                        return Err(e);
                    },
                };
                add_capabilities(&mut caps, &a);
                i = i + 1;
                assert(caps@.to_set() =~= required_capabilities(**function).union(
                    required_in_nodes(*arguments, i as int),
                ));
            }
        },
        AstNode::Lambda { body, .. } => {
            let b = match analyze_capabilities(&**body) {
                Ok(v) => v,
                Err(e) => {
                    return Err(e);
                },
            };
            add_capabilities(&mut caps, &b);
        },
        AstNode::Let { bindings, body, .. } => {
            let mut i: usize = 0;
            while i < bindings.len()
                invariant
                    i <= bindings.len(),
                    caps@.no_duplicates(),
                    caps@.to_set() == required_in_bindings(*bindings, i as int),
                decreases bindings.len() - i,
            {
                let a = match analyze_capabilities(&bindings[i].1) {
                    Ok(v) => v,
                    Err(e) => {
                        return Err(e);
                    },
                };
                add_capabilities(&mut caps, &a);
                i = i + 1;
                assert(caps@.to_set() =~= required_in_bindings(*bindings, i as int));
            }
            let b = match analyze_capabilities(&**body) {
                Ok(v) => v,
                Err(e) => {
                    return Err(e);
                },
            };
            add_capabilities(&mut caps, &b);
        },
        AstNode::If { condition, then_branch, else_branch, .. } => {
            let c = match analyze_capabilities(&**condition) {
                Ok(v) => v,
                Err(e) => {
                    return Err(e);
                },
            };
            add_capabilities(&mut caps, &c);
            let t = match analyze_capabilities(&**then_branch) {
                Ok(v) => v,
                Err(e) => {
                    return Err(e);
                },
            };
            add_capabilities(&mut caps, &t);
            let e = match analyze_capabilities(&**else_branch) {
                Ok(v) => v,
                Err(e) => {
                    return Err(e);
                },
            };
            add_capabilities(&mut caps, &e);
        },
        AstNode::TrustTier { expression, .. } => {
            let x = match analyze_capabilities(&**expression) {
                Ok(v) => v,
                Err(e) => {
                    return Err(e);
                },
            };
            add_capabilities(&mut caps, &x);
        },
        AstNode::MacroExpansion { arguments, .. } => {
            let mut i: usize = 0;
            while i < arguments.len()
                invariant
                    i <= arguments.len(),
                    caps@.no_duplicates(),
                    caps@.to_set() == required_in_nodes(*arguments, i as int),
                decreases arguments.len() - i,
            {
                let a = match analyze_capabilities(&arguments[i]) {
                    Ok(v) => v,
                    Err(e) => {
                        return Err(e);
                    },
                };
                add_capabilities(&mut caps, &a);
                i = i + 1;
                assert(caps@.to_set() =~= required_in_nodes(*arguments, i as int));
            }
        },
        AstNode::List { elements, .. } => {
            let mut i: usize = 0;
            while i < elements.len()
                invariant
                    i <= elements.len(),
                    caps@.no_duplicates(),
                    caps@.to_set() == required_in_nodes(*elements, i as int),
                decreases elements.len() - i,
            {
                let a = match analyze_capabilities(&elements[i]) {
                    Ok(v) => v,
                    Err(e) => {
                        return Err(e);
                    },
                };
                add_capabilities(&mut caps, &a);
                i = i + 1;
                assert(caps@.to_set() =~= required_in_nodes(*elements, i as int));
            }
        },
        AstNode::Cons { car, cdr, .. } => {
            let a = match analyze_capabilities(&**car) {
                Ok(v) => v,
                Err(e) => {
                    return Err(e);
                },
            };
            add_capabilities(&mut caps, &a);
            let d = match analyze_capabilities(&**cdr) {
                Ok(v) => v,
                Err(e) => {
                    return Err(e);
                },
            };
            add_capabilities(&mut caps, &d);
        },
        _ => {},
    }
    proof {
        assert(caps@.to_set() =~= required_capabilities(*ast));
    }
    Ok(caps)
}

/// The suggestion attached to a capability that a tier does not grant.
pub open spec fn tier_suggestion(tier: TrustTier) -> Seq<char> {
    "This capability is not available in "@ + tier_name_spec(tier)
        + " tier. Consider using a higher trust tier."@
}

/// Checks that `tier` grants every capability of `required_caps`; fails on
/// the first that it does not grant.
pub fn validate_tier_capabilities(tier: TrustTier, required_caps: &[Capability]) -> (r: Result<
    (),
    CompilationError,
>)
    ensures
        r is Ok <==> forall|i: int| 0 <= i < required_caps@.len() ==> tier_grants(tier, required_caps@[i]),
        r matches Err(e) ==> exists|i: int|
            0 <= i < required_caps@.len() && !tier_grants(tier, required_caps@[i]) && (forall|j: int|
                0 <= j < i ==> tier_grants(tier, required_caps@[j])) && (e matches CompilationError::CapabilityError(v)
                && v.required == required_caps@[i] && v.tier == tier && v.location == unknown_location()
                && v.suggestion@ == tier_suggestion(tier)),
{
    let mut i: usize = 0;
    while i < required_caps.len()
        invariant
            i <= required_caps@.len(),
            forall|j: int| 0 <= j < i ==> tier_grants(tier, required_caps@[j]),
        decreases required_caps@.len() - i,
    {
        let cap = required_caps[i];
        if !tier.allows_capability(&cap) {
            let mut m = String::from_str("This capability is not available in ");
            m.append(tier.name());
            m.append(" tier. Consider using a higher trust tier.");
            return Err(CompilationError::CapabilityError(CapabilityViolation {
                required: cap,
                tier,
                location: default_location(),
                suggestion: m,
            }));
        }
        i = i + 1;
    }
    Ok(())
}

/// The suggestion attached to a foreign call that a tier does not allow.
pub open spec fn ffi_suggestion(function_name: Seq<char>, cap: Capability, tier: TrustTier) -> Seq<char> {
    "FFI call to "@ + function_name + " requires capability "@ + capability_name_spec(cap)
        + " not granted for trust tier "@ + tier_name_spec(tier)
        + ". Consider using a higher trust tier."@
}

/// Checks that a trust tier may call the standard foreign function
/// `function_name`: fails if the function is not a standard one, or if the
/// tier does not grant the capability it needs.
pub fn validate_ffi_call(tier: TrustTier, function_name: &str) -> (r: Result<(), CompilationError>)
    ensures
        ffi_capability_spec(function_name@) is None ==> (r matches Err(CompilationError::FfiError(m))
            && m@ == "FFI function "@ + function_name@ + " not found in capability mapping"@),
        ffi_capability_spec(function_name@) matches Some(c) ==> (tier_grants(tier, c) ==> r is Ok)
            && (!tier_grants(tier, c) ==> (r matches Err(CompilationError::CapabilityError(v))
            && v.required == c && v.tier == tier && v.location == unknown_location()
            && v.suggestion@ == ffi_suggestion(function_name@, c, tier))),
{
    let required_cap = match get_ffi_function_capability(function_name) {
        Some(c) => c,
        None => {
            let mut m = String::from_str("FFI function ");
            m.append(function_name);
            m.append(" not found in capability mapping");
            return Err(CompilationError::FfiError(m));
        },
    };
    if !tier.allows_capability(&required_cap) {
        let mut m = String::from_str("FFI call to ");
        m.append(function_name);
        m.append(" requires capability ");
        m.append(capability_name(required_cap));
        m.append(" not granted for trust tier ");
        m.append(tier.name());
        m.append(". Consider using a higher trust tier.");
        return Err(CompilationError::CapabilityError(CapabilityViolation {
            required: required_cap,
            tier,
            location: default_location(),
            suggestion: m,
        }));
    }
    Ok(())
}

} // verus!
