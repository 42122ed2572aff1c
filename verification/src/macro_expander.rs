//! A simpler macro facility: macros are defined by name (a later
//! definition replaces an earlier one) and expanded by substituting the
//! arguments for the parameters; the result is expanded again until no
//! macro use is left.
use vstd::prelude::*;
use crate::ast::{AstNode, clone_strings, tree_size, trees_size, lemma_trees_size};
use crate::ast_view::{NodeView, node_view, nodes_view, all_nodes_view, bindings_view, clone_nodes,
    lemma_nodes_view, lemma_bindings_view, strings_view};
use crate::error::{CapabilityViolation, CompilationError, SourceLocation, unknown_location};
use crate::physics::Capability;
use crate::text::{decimal, push_decimal, str_eq};
use crate::trust_tier::{TrustTier, tier_name_spec, tier_rank};

verus! {

/// A macro: a name, parameters, a body and the least trust tier that may
/// define it.
#[derive(Debug)]
pub struct MacroDefinition {
    /// Its name.
    pub name: String,
    /// Its parameters.
    pub parameters: Vec<String>,
    /// Its body.
    pub body: AstNode,
    /// Its trust tier.
    pub trust_tier: TrustTier,
}

/// The macros defined so far and the tier of the code defining them.
///
/// Definitions are kept in the order they were made; a name means its
/// latest definition.
pub struct MacroExpansionContext {
    /// The definitions, oldest first.
    pub macros: Vec<MacroDefinition>,
    /// The trust tier of the defining code.
    pub trust_tier: TrustTier,
}

/// The macro each name means after the definitions of `v`, in order.
pub open spec fn macro_map_of(v: Seq<MacroDefinition>) -> Map<Seq<char>, MacroDefinition>
    decreases v.len(),
{
    if v.len() == 0 {
        Map::empty()
    } else {
        macro_map_of(v.drop_last()).insert(v.last().name@, v.last())
    }
}

impl MacroExpansionContext {
    /// The macro each name means.
    pub open spec fn macro_map(self) -> Map<Seq<char>, MacroDefinition> {
        macro_map_of(self.macros@)
    }
}

/// A context with no macro for code of trust tier `trust_tier`.
pub fn create_macro_expansion_context(trust_tier: TrustTier) -> (r: MacroExpansionContext)
    ensures
        r.macro_map() == Map::<Seq<char>, MacroDefinition>::empty(),
        r.macros@.len() == 0,
        r.trust_tier == trust_tier,
{
    MacroExpansionContext { macros: Vec::new(), trust_tier }
}

/// The suggestion attached to a definition the context's tier may not make.
pub open spec fn define_suggestion(wanted: TrustTier, current: TrustTier) -> Seq<char> {
    "Macro requires trust tier "@ + tier_name_spec(wanted) + " but current tier is "@
        + tier_name_spec(current)
}

/// Defines (or redefines) the macro `name`. The context's tier must be at
/// least the macro's; otherwise the hygienic-macro capability is reported
/// missing and nothing changes.
pub fn define_macro(
    context: &mut MacroExpansionContext,
    name: String,
    parameters: Vec<String>,
    body: AstNode,
    trust_tier: TrustTier,
) -> (r: Result<(), CompilationError>)
    ensures
        final(context).trust_tier == old(context).trust_tier,
        tier_rank(old(context).trust_tier) >= tier_rank(trust_tier) ==> (r is Ok
            && final(context).macros@ == old(context).macros@.push(
            MacroDefinition { name, parameters, body, trust_tier },
        ) && final(context).macro_map() == old(context).macro_map().insert(
            name@,
            MacroDefinition { name, parameters, body, trust_tier },
        )),
        tier_rank(old(context).trust_tier) < tier_rank(trust_tier) ==> (r matches Err(CompilationError::CapabilityError(v))
            && v.required == Capability::MacroHygienic && v.tier == old(context).trust_tier
            && v.location == unknown_location() && v.suggestion@ == define_suggestion(
            trust_tier,
            old(context).trust_tier,
        )),
        tier_rank(old(context).trust_tier) < tier_rank(trust_tier) ==> final(context).macros@ == old(
            context,
        ).macros@,
{
    if !context.trust_tier.is_at_least(&trust_tier) {
        let mut m = String::from_str("Macro requires trust tier ");
        m.append(trust_tier.name());
        m.append(" but current tier is ");
        m.append(context.trust_tier.name());
        return Err(CompilationError::CapabilityError(CapabilityViolation {
            required: Capability::MacroHygienic,
            tier: context.trust_tier,
            location: SourceLocation::default(),
            suggestion: m,
        }));
    }
    let ghost d = MacroDefinition { name, parameters, body, trust_tier };
    context.macros.push(MacroDefinition { name, parameters, body, trust_tier });
    proof {
        let v = context.macros@;
        assert(v.drop_last() =~= old(context).macros@);
    }
    Ok(())
}

/// The value of the last binding of `name` among the first `k` of `b`.
pub open spec fn last_bound(b: Seq<(Seq<char>, NodeView)>, name: Seq<char>, k: int) -> Option<NodeView>
    decreases k,
{
    if k <= 0 || k > b.len() {
        None
    } else if b[k - 1].0 == name {
        Some(b[k - 1].1)
    } else {
        last_bound(b, name, k - 1)
    }
}

/// Substitution as this facility does it: a variable with a binding
/// becomes the value of its last binding; lambda bodies (whatever their
/// parameters) and calls are substituted through; other nodes are kept.
pub open spec fn substitute_through(v: NodeView, b: Seq<(Seq<char>, NodeView)>) -> NodeView
    decreases v,
{
    match v {
        NodeView::Variable(n) => match last_bound(b, n, b.len() as int) {
            Some(x) => x,
            None => v,
        },
        NodeView::Lambda { parameters, body, location } => NodeView::Lambda {
            parameters,
            body: Box::new(substitute_through(*body, b)),
            location,
        },
        NodeView::Call { function, arguments, location } => NodeView::Call {
            function: Box::new(substitute_through(*function, b)),
            arguments: substitute_through_all(arguments, b),
            location,
        },
        _ => v,
    }
}

/// `substitute_through` on each tree of `s`.
pub open spec fn substitute_through_all(s: Seq<NodeView>, b: Seq<(Seq<char>, NodeView)>) -> Seq<NodeView>
    decreases s,
{
    if s.len() == 0 {
        seq![]
    } else {
        substitute_through_all(s.subrange(0, s.len() - 1), b).push(substitute_through(s[s.len() - 1], b))
    }
}

/// `substitute_through_all` keeps the length and substitutes each tree.
pub proof fn lemma_substitute_through_all(s: Seq<NodeView>, b: Seq<(Seq<char>, NodeView)>)
    ensures
        substitute_through_all(s, b).len() == s.len(),
        forall|j: int|
            0 <= j < s.len() ==> #[trigger] substitute_through_all(s, b)[j] == substitute_through(
                s[j],
                b,
            ),
    decreases s.len(),
{
    if s.len() > 0 {
        lemma_substitute_through_all(s.subrange(0, s.len() - 1), b);
    }
}

/// Why a single expansion failed.
pub enum ExpansionFailure {
    /// No macro has the name.
    NotFound(Seq<char>),
    /// The numbers of parameters and arguments differ.
    Arity(Seq<char>, nat, nat),
}

/// Expanding the macro `name` once with `args`: the body of the macro the
/// name means, with the arguments substituted for the parameters.
pub open spec fn expand_once(ms: Map<Seq<char>, MacroDefinition>, name: Seq<char>, args: Seq<NodeView>) -> Result<
    NodeView,
    ExpansionFailure,
> {
    if !ms.contains_key(name) {
        Err(ExpansionFailure::NotFound(name))
    } else if ms[name].parameters@.len() != args.len() {
        Err(ExpansionFailure::Arity(name, ms[name].parameters@.len(), args.len()))
    } else {
        Ok(
            substitute_through(
                node_view(ms[name].body),
                Seq::new(args.len(), |i: int| (ms[name].parameters@[i]@, args[i])),
            ),
        )
    }
}

/// Is `e` the error reported for `f`: a parse error at the unknown location.
pub open spec fn expansion_failure_matches(e: CompilationError, f: ExpansionFailure) -> bool {
    match f {
        ExpansionFailure::NotFound(name) => e matches CompilationError::ParseError { message, location }
            && message@ == "Macro "@ + name + " not found"@ && location == unknown_location(),
        ExpansionFailure::Arity(name, p, a) => e matches CompilationError::ParseError { message, location }
            && message@ == "Macro "@ + name + " expects "@ + decimal(p) + " arguments but got "@
            + decimal(a) && location == unknown_location(),
    }
}

/// Does `r` agree with the outcome `x`.
pub open spec fn outcome_matches(r: Result<AstNode, CompilationError>, x: Result<NodeView, ExpansionFailure>) -> bool {
    match x {
        Ok(v) => r matches Ok(n) && node_view(n) == v,
        Err(f) => r matches Err(e) && expansion_failure_matches(e, f),
    }
}

/// The index of the latest definition named `name` in `v`.
pub open spec fn latest(v: Seq<MacroDefinition>, name: Seq<char>) -> Option<int>
    decreases v.len(),
{
    if v.len() == 0 {
        None
    } else if v.last().name@ == name {
        Some(v.len() - 1)
    } else {
        latest(v.drop_last(), name)
    }
}

/// A name means the latest definition of that name.
pub proof fn lemma_latest(v: Seq<MacroDefinition>, name: Seq<char>)
    ensures
        macro_map_of(v).contains_key(name) <==> latest(v, name) is Some,
        latest(v, name) matches Some(i) ==> 0 <= i < v.len() && macro_map_of(v)[name] == v[i],
    decreases v.len(),
{
    if v.len() > 0 {
        lemma_latest(v.drop_last(), name);
    }
}

/// The index of the latest definition named `name`.
fn find_latest(context: &MacroExpansionContext, name: &str) -> (r: Option<usize>)
    ensures
        match latest(context.macros@, name@) {
            None => r is None,
            Some(i) => r matches Some(j) && j == i,
        },
{
    let ghost v = context.macros@;
    let mut k: usize = context.macros.len();
    assert(v.take(k as int) =~= v);
    while k > 0
        invariant
            k <= v.len(),
            v == context.macros@,
            latest(v, name@) == latest(v.take(k as int), name@),
        decreases k,
    {
        assert(v.take(k as int).last() == v[k - 1]);
        if str_eq(context.macros[k - 1].name.as_str(), name) {
            return Some(k - 1);
        }
        assert(v.take(k as int).drop_last() =~= v.take(k - 1));
        k = k - 1;
    }
    None
}

/// Expands the macro `macro_name` once with `arguments` (see
/// `expand_once`).
pub fn expand_macro(context: &MacroExpansionContext, macro_name: &str, arguments: Vec<AstNode>) -> (r:
    Result<AstNode, CompilationError>)
    ensures
        outcome_matches(r, expand_once(context.macro_map(), macro_name@, all_nodes_view(arguments))),
{
    proof {
        lemma_latest(context.macros@, macro_name@);
        lemma_nodes_view(arguments, arguments@.len() as int);
    }
    let i = match find_latest(context, macro_name) {
        Some(i) => i,
        None => {
            let mut m = String::from_str("Macro ");
            m.append(macro_name);
            m.append(" not found");
            return Err(CompilationError::ParseError { message: m, location: SourceLocation::default() });
        },
    };
    let def = &context.macros[i];
    let np = def.parameters.len();
    let na = arguments.len();
    if np != na {
        let mut m = String::from_str("Macro ");
        m.append(macro_name);
        m.append(" expects ");
        push_decimal(&mut m, np as u64);
        m.append(" arguments but got ");
        push_decimal(&mut m, na as u64);
        return Err(CompilationError::ParseError { message: m, location: SourceLocation::default() });
    }
    let mut substitutions: Vec<(String, AstNode)> = Vec::new();
    let mut j: usize = 0;
    while j < np
        invariant
            j <= np,
            np == def.parameters@.len(),
            na == arguments@.len(),
            np == na,
            substitutions@.len() == j,
            forall|q: int|
                0 <= q < j ==> (#[trigger] substitutions@[q]).0@ == def.parameters@[q]@ && node_view(
                    substitutions@[q].1,
                ) == node_view(arguments@[q]),
        decreases np - j,
    {
        let p = def.parameters[j].clone();
        let a = arguments[j].deep_clone();
        substitutions.push((p, a));
        j = j + 1;
    }
    proof {
        lemma_bindings_view(substitutions, substitutions@.len() as int);
        let args = all_nodes_view(arguments);
        assert(bindings_view(substitutions, substitutions@.len() as int) =~= Seq::new(
            args.len(),
            |k: int| (def.parameters@[k]@, args[k]),
        ));
    }
    substitute_variables(&def.body, &substitutions)
}

/// Substitutes the bound variables of `node` (see `substitute_through`);
/// it never fails.
#[verifier::loop_isolation(false)]
fn substitute_variables(node: &AstNode, substitutions: &Vec<(String, AstNode)>) -> (r: Result<
    AstNode,
    CompilationError,
>)
    ensures
        r matches Ok(n) && node_view(n) == substitute_through(
            node_view(*node),
            bindings_view(*substitutions, substitutions@.len() as int),
        ),
    decreases tree_size(*node),
{
    let ghost bv = bindings_view(*substitutions, substitutions@.len() as int);
    proof {
        lemma_bindings_view(*substitutions, substitutions@.len() as int);
    }
    match node {
        AstNode::Variable(name) => {
            let mut k: usize = substitutions.len();
            while k > 0
                invariant
                    k <= substitutions@.len(),
                    last_bound(bv, name@, bv.len() as int) == last_bound(bv, name@, k as int),
                decreases k,
            {
                if str_eq(substitutions[k - 1].0.as_str(), name.as_str()) {
                    assert(bv[k - 1].0 == name@);
                    return Ok(substitutions[k - 1].1.deep_clone());
                }
                k = k - 1;
            }
            Ok(node.deep_clone())
        },
        AstNode::Lambda { parameters, body, location } => {
            let b = match substitute_variables(body, substitutions) {
                Ok(n) => n,
                Err(e) => {
                    return Err(e);
                },
            };
            Ok(AstNode::Lambda { parameters: clone_strings(parameters), body: Box::new(b), location: *location })
        },
        AstNode::Call { function, arguments, location } => {
            let f = match substitute_variables(function, substitutions) {
                Ok(n) => n,
                Err(e) => {
                    return Err(e);
                },
            };
            let mut out: Vec<AstNode> = Vec::new();
            let mut i: usize = 0;
            while i < arguments.len()
                invariant
                    i <= arguments@.len(),
                    out@.len() == i,
                    forall|j: int|
                        0 <= j < i ==> node_view(#[trigger] out@[j]) == substitute_through(
                            node_view(arguments@[j]),
                            bv,
                        ),
                decreases arguments@.len() - i,
            {
                proof {
                    lemma_trees_size(*arguments, i as int, arguments@.len() as int);
                }
                let a = match substitute_variables(&arguments[i], substitutions) {
                    Ok(n) => n,
                    Err(e) => {
                        return Err(e);
                    },
                };
                out.push(a);
                i = i + 1;
            }
            proof {
                lemma_nodes_view(out, out@.len() as int);
                lemma_nodes_view(*arguments, arguments@.len() as int);
                lemma_substitute_through_all(nodes_view(*arguments, arguments@.len() as int), bv);
                assert(nodes_view(out, out@.len() as int) =~= substitute_through_all(
                    nodes_view(*arguments, arguments@.len() as int),
                    bv,
                ));
            }
            Ok(AstNode::Call { function: Box::new(f), arguments: out, location: *location })
        },
        _ => Ok(node.deep_clone()),
    }
}

/// Expanding every macro use of a tree, with at most `fuel` nested
/// re-expansions: a macro use is expanded once and its result expanded
/// again; lambda bodies and calls (function, then arguments in order,
/// stopping at the first failure) are expanded through; other nodes are
/// kept. `None` when the fuel runs out.
pub open spec fn expand_fuel(ms: Map<Seq<char>, MacroDefinition>, v: NodeView, fuel: nat) -> Option<
    Result<NodeView, ExpansionFailure>,
>
    decreases fuel, v,
{
    match v {
        NodeView::MacroExpansion { name, arguments, .. } => if fuel == 0 {
            None
        } else {
            match expand_once(ms, name, arguments) {
                Err(f) => Some(Err(f)),
                Ok(x) => expand_fuel(ms, x, (fuel - 1) as nat),
            }
        },
        NodeView::Lambda { parameters, body, location } => match expand_fuel(ms, *body, fuel) {
            Some(Ok(b)) => Some(Ok(NodeView::Lambda { parameters, body: Box::new(b), location })),
            other => other,
        },
        NodeView::Call { function, arguments, location } => match expand_fuel(ms, *function, fuel) {
            Some(Ok(f)) => match expand_fuel_seq(ms, arguments, fuel) {
                Some(Ok(a)) => Some(
                    Ok(NodeView::Call { function: Box::new(f), arguments: a, location }),
                ),
                Some(Err(e)) => Some(Err(e)),
                None => None,
            },
            other => other,
        },
        _ => Some(Ok(v)),
    }
}

/// `expand_fuel` of the trees of `s` in order, stopping at the first
/// failure.
pub open spec fn expand_fuel_seq(ms: Map<Seq<char>, MacroDefinition>, s: Seq<NodeView>, fuel: nat) -> Option<
    Result<Seq<NodeView>, ExpansionFailure>,
>
    decreases fuel, s,
{
    if s.len() == 0 {
        Some(Ok(seq![]))
    } else {
        match expand_fuel_seq(ms, s.subrange(0, s.len() - 1), fuel) {
            Some(Ok(d)) => match expand_fuel(ms, s[s.len() - 1], fuel) {
                Some(Ok(x)) => Some(Ok(d.push(x))),
                Some(Err(e)) => Some(Err(e)),
                None => None,
            },
            other => other,
        }
    }
}

/// Does the expansion of `v` end within some fuel.
pub open spec fn expansion_terminates(ms: Map<Seq<char>, MacroDefinition>, v: NodeView) -> bool {
    exists|f: nat| #[trigger] expand_fuel(ms, v, f) is Some
}

/// The outcome of an expansion that ends.
pub open spec fn full_expansion(ms: Map<Seq<char>, MacroDefinition>, v: NodeView) -> Result<
    NodeView,
    ExpansionFailure,
> {
    expand_fuel(ms, v, choose|f: nat| #[trigger] expand_fuel(ms, v, f) is Some).unwrap()
}

/// The sequence expansion of a longer prefix ends only if that of a
/// shorter one does; a failure of the shorter one is the failure of the
/// longer one.
proof fn lemma_expand_seq_prefix(
    ms: Map<Seq<char>, MacroDefinition>,
    v: Vec<AstNode>,
    i: int,
    k: int,
    fuel: nat,
)
    requires
        0 <= i <= k <= v.len(),
        expand_fuel_seq(ms, nodes_view(v, k), fuel) is Some,
    ensures
        expand_fuel_seq(ms, nodes_view(v, i), fuel) is Some,
        expand_fuel_seq(ms, nodes_view(v, i), fuel) matches Some(Err(e)) ==> expand_fuel_seq(
            ms,
            nodes_view(v, k),
            fuel,
        ) == expand_fuel_seq(ms, nodes_view(v, i), fuel),
    decreases k - i,
{
    if k > i {
        let s = nodes_view(v, k);
        assert(s.subrange(0, s.len() - 1) =~= nodes_view(v, k - 1)) by {
            lemma_nodes_view(v, k);
            lemma_nodes_view(v, k - 1);
        }
        lemma_expand_seq_prefix(ms, v, i, k - 1, fuel);
    }
}

/// Expands every macro use of `node` with at most `fuel` nested
/// re-expansions.
#[verifier::loop_isolation(false)]
fn expand_with_fuel(node: &AstNode, context: &MacroExpansionContext, Ghost(fuel): Ghost<nat>) -> (r:
    Result<AstNode, CompilationError>)
    requires
        expand_fuel(context.macro_map(), node_view(*node), fuel) is Some,
    ensures
        outcome_matches(r, expand_fuel(context.macro_map(), node_view(*node), fuel).unwrap()),
    decreases fuel, tree_size(*node),
{
    let ghost ms = context.macro_map();
    match node {
        AstNode::MacroExpansion { name, arguments, .. } => {
            let args = clone_nodes(arguments);
            let expanded = match expand_macro(context, name.as_str(), args) {
                Ok(n) => n,
                Err(e) => {
                    return Err(e);
                },
            };
            expand_with_fuel(&expanded, context, Ghost((fuel - 1) as nat))
        },
        AstNode::Lambda { parameters, body, location } => {
            let b = match expand_with_fuel(body, context, Ghost(fuel)) {
                Ok(n) => n,
                Err(e) => {
                    return Err(e);
                },
            };
            Ok(AstNode::Lambda { parameters: clone_strings(parameters), body: Box::new(b), location: *location })
        },
        AstNode::Call { function, arguments, location } => {
            let f = match expand_with_fuel(function, context, Ghost(fuel)) {
                Ok(n) => n,
                Err(e) => {
                    return Err(e);
                },
            };
            let ghost n = arguments@.len() as int;
            proof {
                lemma_nodes_view(*arguments, n);
            }
            let ghost mut done: Seq<NodeView> = seq![];
            let mut out: Vec<AstNode> = Vec::new();
            let mut i: usize = 0;
            while i < arguments.len()
                invariant
                    i <= n,
                    n == arguments@.len(),
                    out@.len() == i,
                    done.len() == i,
                    expand_fuel_seq(ms, nodes_view(*arguments, n), fuel) is Some,
                    forall|j: int| 0 <= j < i ==> node_view(#[trigger] out@[j]) == done[j],
                    expand_fuel_seq(ms, nodes_view(*arguments, i as int), fuel) == Some(
                        Ok::<Seq<NodeView>, ExpansionFailure>(done),
                    ),
                decreases arguments@.len() - i,
            {
                proof {
                    lemma_trees_size(*arguments, i as int, arguments@.len() as int);
                    lemma_nodes_view(*arguments, i as int + 1);
                    let s = nodes_view(*arguments, i as int + 1);
                    assert(s.subrange(0, s.len() - 1) =~= nodes_view(*arguments, i as int));
                    lemma_expand_seq_prefix(ms, *arguments, i as int + 1, n, fuel);
                }
                match expand_with_fuel(&arguments[i], context, Ghost(fuel)) {
                    Ok(a) => {
                        proof {
                            done = done.push(node_view(a));
                        }
                        out.push(a);
                    },
                    Err(e) => {
                        return Err(e);
                    },
                }
                i = i + 1;
            }
            proof {
                lemma_nodes_view(out, out@.len() as int);
                assert(nodes_view(out, out@.len() as int) =~= done);
            }
            Ok(AstNode::Call { function: Box::new(f), arguments: out, location: *location })
        },
        _ => Ok(node.deep_clone()),
    }
}

/// Expands every macro use of `node`, expanding the results again until
/// none is left (see `expand_fuel`). An expansion that would never end (a
/// macro that uses itself) is left out by the precondition.
pub fn expand_macros(node: &AstNode, context: &MacroExpansionContext) -> (r: Result<
    AstNode,
    CompilationError,
>)
    requires
        expansion_terminates(context.macro_map(), node_view(*node)),
    ensures
        outcome_matches(r, full_expansion(context.macro_map(), node_view(*node))),
{
    let ghost fuel = choose|f: nat| #[trigger] expand_fuel(context.macro_map(), node_view(*node), f) is Some;
    expand_with_fuel(node, context, Ghost(fuel))
}

} // verus!
