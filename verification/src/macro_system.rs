//! Macros with capability requirements: a macro may be expanded only by a
//! caller whose trust tier is at least the macro's and whose capabilities
//! cover the macro's; expansion substitutes the arguments for the
//! parameters in the macro's body.
use vstd::prelude::*;
use crate::ast::{AstNode, tree_size, trees_size, lemma_trees_size};
use crate::ast_view::{NodeView, clone_nodes, node_view, nodes_view, all_nodes_view, bindings_view,
    lemma_nodes_view, lemma_bindings_view, strings_view};
use crate::capability_analyzer::add_capability;
use crate::error::{CapabilityViolation, CompilationError, SourceLocation, unknown_location};
use crate::physics::{Capability, capability_name, capability_name_spec};
use crate::text::{decimal, push_decimal, str_eq};
use crate::trust_tier::{TrustTier, granted_seq, tier_grants, tier_name_spec, tier_rank};

verus! {

/// A nesting level of macro hygiene and the names captured so far.
#[derive(Debug, Clone, Default)]
pub struct HygieneScope {
    /// The current level.
    pub level: usize,
    /// The captured names.
    pub captured: Vec<String>,
}

impl HygieneScope {
    /// Level 0 with nothing captured.
    pub fn new() -> (r: Self)
        ensures
            r.level == 0,
            r.captured@.len() == 0,
    {
        HygieneScope { level: 0, captured: Vec::new() }
    }

    /// One level deeper.
    pub fn enter(&mut self)
        requires
            old(self).level < usize::MAX,
        ensures
            final(self).level == old(self).level + 1,
            final(self).captured@ == old(self).captured@,
    {
        self.level = self.level + 1;
    }

    /// One level up; level 0 stays 0.
    pub fn exit(&mut self)
        ensures
            final(self).level == if old(self).level > 0 {
                old(self).level - 1
            } else {
                0
            },
            final(self).captured@ == old(self).captured@,
    {
        if self.level > 0 {
            self.level = self.level - 1;
        }
    }

    /// Records a captured name.
    pub fn capture(&mut self, name: String)
        ensures
            final(self).captured@ == old(self).captured@.push(name),
            final(self).level == old(self).level,
    {
        self.captured.push(name);
    }

    /// Was `name` captured.
    pub fn is_captured(&self, name: &str) -> (r: bool)
        ensures
            r == strings_view(self.captured).contains(name@),
    {
        let mut i: usize = 0;
        while i < self.captured.len()
            invariant
                i <= self.captured@.len(),
                forall|j: int| 0 <= j < i ==> self.captured@[j]@ != name@,
            decreases self.captured@.len() - i,
        {
            if str_eq(self.captured[i].as_str(), name) {
                assert(strings_view(self.captured)[i as int] == name@);
                return true;
            }
            i = i + 1;
        }
        assert(!strings_view(self.captured).contains(name@)) by {
            if strings_view(self.captured).contains(name@) {
                let k = choose|k: int|
                    0 <= k < strings_view(self.captured).len() && strings_view(self.captured)[k]
                        == name@;
                assert(self.captured@[k]@ == name@);
            }
        }
        false
    }
}

/// Entering a level and leaving it again restores the level.
pub proof fn lemma_enter_exit_restores(level: usize)
    requires
        level < usize::MAX,
    ensures
        ({
            let entered = (level + 1) as usize;
            (if entered > 0 {
                entered - 1
            } else {
                0
            }) == level
        }),
{
}

/// A macro: its parameters, its body, and what expanding it requires.
#[derive(Debug)]
pub struct MacroDefinition {
    /// Its name.
    pub name: String,
    /// Its parameters.
    pub parameters: Vec<String>,
    /// Its body.
    pub body: AstNode,
    /// The capabilities an expansion needs.
    pub required_capabilities: Vec<Capability>,
    /// The least trust tier that may expand it.
    pub declared_tier: TrustTier,
    /// Whether it is hygienic.
    pub is_hygienic: bool,
    /// Where it was defined.
    pub location: SourceLocation,
}

/// The state of the caller during expansion.
#[derive(Debug)]
pub struct MacroContext {
    /// The caller's capabilities.
    pub caller_capabilities: Vec<Capability>,
    /// The capabilities of the last expansion: the caller's that the macro
    /// requires.
    pub expansion_capabilities: Vec<Capability>,
    /// The caller's trust tier.
    pub tier: TrustTier,
    /// The hygiene scope.
    pub hygiene_scope: HygieneScope,
    /// The location of the last expansion.
    pub location: SourceLocation,
}

/// The value of the first binding of `name` in `b` from index `i` on.
pub open spec fn first_bound(b: Seq<(Seq<char>, NodeView)>, name: Seq<char>, i: int) -> Option<
    NodeView,
>
    decreases b.len() - i,
{
    if i < 0 || i >= b.len() {
        None
    } else if b[i].0 == name {
        Some(b[i].1)
    } else {
        first_bound(b, name, i + 1)
    }
}

/// Substitution of bound variables: a variable with a binding becomes the
/// value of its first binding; calls are substituted through; every other
/// node is kept as it is.
pub open spec fn substitute(v: NodeView, b: Seq<(Seq<char>, NodeView)>) -> NodeView
    decreases v,
{
    match v {
        NodeView::Variable(n) => match first_bound(b, n, 0) {
            Some(x) => x,
            None => v,
        },
        NodeView::Call { function, arguments, location } => NodeView::Call {
            function: Box::new(substitute(*function, b)),
            arguments: substitute_all(arguments, b),
            location,
        },
        _ => v,
    }
}

/// `substitute` on each tree of `s`.
pub open spec fn substitute_all(s: Seq<NodeView>, b: Seq<(Seq<char>, NodeView)>) -> Seq<NodeView>
    decreases s,
{
    if s.len() == 0 {
        seq![]
    } else {
        substitute_all(s.subrange(0, s.len() - 1), b).push(substitute(s[s.len() - 1], b))
    }
}

/// `substitute_all` keeps the length and substitutes each tree.
pub proof fn lemma_substitute_all(s: Seq<NodeView>, b: Seq<(Seq<char>, NodeView)>)
    ensures
        substitute_all(s, b).len() == s.len(),
        forall|j: int| 0 <= j < s.len() ==> #[trigger] substitute_all(s, b)[j] == substitute(s[j], b),
    decreases s.len(),
{
    if s.len() > 0 {
        lemma_substitute_all(s.subrange(0, s.len() - 1), b);
    }
}

/// The parameters of a macro paired with the views of the arguments.
pub open spec fn zip_bindings(parameters: Seq<Seq<char>>, args: Seq<NodeView>) -> Seq<(Seq<char>, NodeView)> {
    Seq::new(parameters.len(), |i: int| (parameters[i], args[i]))
}

/// The index of the first macro named `name` from index `i` on.
pub open spec fn first_macro(ms: Seq<MacroDefinition>, name: Seq<char>, i: int) -> Option<int>
    decreases ms.len() - i,
{
    if i < 0 || i >= ms.len() {
        None
    } else if ms[i].name@ == name {
        Some(i)
    } else {
        first_macro(ms, name, i + 1)
    }
}

/// A macro found from index `k` on is at or after `k`, exists and has the
/// name.
pub proof fn lemma_first_macro(ms: Seq<MacroDefinition>, name: Seq<char>, k: int)
    ensures
        first_macro(ms, name, k) matches Some(i) ==> 0 <= k <= i < ms.len() && ms[i].name@ == name,
    decreases ms.len() - k,
{
    if 0 <= k < ms.len() && ms[k].name@ != name {
        lemma_first_macro(ms, name, k + 1);
    }
}

/// The first capability of `req` from index `i` on that `have` lacks.
pub open spec fn first_missing(req: Seq<Capability>, have: Set<Capability>, i: int) -> Option<
    Capability,
>
    decreases req.len() - i,
{
    if i < 0 || i >= req.len() {
        None
    } else if !have.contains(req[i]) {
        Some(req[i])
    } else {
        first_missing(req, have, i + 1)
    }
}

/// Why an expansion failed.
pub enum MacroFailure {
    /// No macro has the name.
    NotFound(Seq<char>),
    /// The caller's tier is below the macro's (the macro's tier).
    TierTooLow(Seq<char>, TrustTier),
    /// The caller lacks a capability the macro requires (with the macro's
    /// location).
    MissingCapability(Seq<char>, Capability, SourceLocation),
    /// The numbers of parameters and of arguments differ.
    Arity(Seq<char>, nat, nat),
}

/// What an expansion gives.
pub enum Expanded {
    /// The expanded tree.
    Done(NodeView),
    /// The reason it failed.
    Failed(MacroFailure),
}

/// What stays fixed while expanding: the macros, the caller's capabilities
/// and tier.
pub struct MacroEnv {
    pub macros: Seq<MacroDefinition>,
    pub caller: Set<Capability>,
    pub tier: TrustTier,
}

/// What an expansion changes in the context: the expansion capabilities
/// and the location.
pub struct ExpansionState {
    pub expansion: Set<Capability>,
    pub location: SourceLocation,
}

/// Expanding the macro `name` with `args` at `location`: the first macro of
/// that name; the caller's tier must be at least the macro's; the context
/// then records the caller's capabilities that the macro requires and the
/// location; every required capability must be the caller's; the numbers
/// of parameters and arguments must agree; the result is the body with the
/// arguments substituted for the parameters.
pub open spec fn expand_macro_spec(
    env: MacroEnv,
    st: ExpansionState,
    name: Seq<char>,
    args: Seq<NodeView>,
    location: SourceLocation,
) -> (ExpansionState, Expanded) {
    match first_macro(env.macros, name, 0) {
        None => (st, Expanded::Failed(MacroFailure::NotFound(name))),
        Some(i) => {
            let d = env.macros[i];
            if tier_rank(env.tier) < tier_rank(d.declared_tier) {
                (st, Expanded::Failed(MacroFailure::TierTooLow(name, d.declared_tier)))
            } else {
                let st1 = ExpansionState {
                    expansion: env.caller.intersect(d.required_capabilities@.to_set()),
                    location,
                };
                match first_missing(d.required_capabilities@, env.caller, 0) {
                    Some(c) => (st1, Expanded::Failed(MacroFailure::MissingCapability(name, c, d.location))),
                    None => if d.parameters@.len() != args.len() {
                        (
                            st1,
                            Expanded::Failed(
                                MacroFailure::Arity(name, d.parameters@.len(), args.len()),
                            ),
                        )
                    } else {
                        (
                            st1,
                            Expanded::Done(
                                substitute(
                                    node_view(d.body),
                                    zip_bindings(strings_view(d.parameters), args),
                                ),
                            ),
                        )
                    },
                }
            }
        },
    }
}

/// Expanding every macro use of a tree: a macro use is expanded (its
/// result is not expanded again); calls are expanded through, function
/// first, then the arguments in order, stopping at the first failure; every
/// other node is kept.
pub open spec fn expand_all_spec(env: MacroEnv, st: ExpansionState, v: NodeView) -> (
    ExpansionState,
    Expanded,
)
    decreases v,
{
    match v {
        NodeView::MacroExpansion { name, arguments, location } => expand_macro_spec(
            env,
            st,
            name,
            arguments,
            location,
        ),
        NodeView::Call { function, arguments, location } => {
            let (st1, r1) = expand_all_spec(env, st, *function);
            match r1 {
                Expanded::Failed(f) => (st1, Expanded::Failed(f)),
                Expanded::Done(f) => {
                    let (st2, r2) = expand_all_seq(env, st1, arguments);
                    match r2 {
                        Err(g) => (st2, Expanded::Failed(g)),
                        Ok(a) => (
                            st2,
                            Expanded::Done(
                                NodeView::Call { function: Box::new(f), arguments: a, location },
                            ),
                        ),
                    }
                },
            }
        },
        _ => (st, Expanded::Done(v)),
    }
}

/// `expand_all_spec` of the trees of `s` in order, stopping at the first
/// failure.
pub open spec fn expand_all_seq(env: MacroEnv, st: ExpansionState, s: Seq<NodeView>) -> (
    ExpansionState,
    Result<Seq<NodeView>, MacroFailure>,
)
    decreases s,
{
    if s.len() == 0 {
        (st, Ok(seq![]))
    } else {
        let (st1, r1) = expand_all_seq(env, st, s.subrange(0, s.len() - 1));
        match r1 {
            Err(f) => (st1, Err(f)),
            Ok(done) => {
                let (st2, r2) = expand_all_spec(env, st1, s[s.len() - 1]);
                match r2 {
                    Expanded::Failed(f) => (st2, Err(f)),
                    Expanded::Done(x) => (st2, Ok(done.push(x))),
                }
            },
        }
    }
}

/// Is `e` the error reported for `f` by a caller of tier `tier`.
pub open spec fn failure_matches(e: CompilationError, f: MacroFailure, tier: TrustTier) -> bool {
    match f {
        MacroFailure::NotFound(name) => e matches CompilationError::MacroExpansionError(m) && m@
            == "Macro "@ + name + " not found"@,
        MacroFailure::TierTooLow(name, declared) => e matches CompilationError::MacroExpansionError(m)
            && m@ == "Macro "@ + name + " requires tier "@ + tier_name_spec(declared)
            + ", but current tier is "@ + tier_name_spec(tier),
        MacroFailure::MissingCapability(name, c, location) => e matches CompilationError::CapabilityError(v)
            && v.required == c && v.tier == tier && v.location == location && v.suggestion@ == "Macro "@
            + name + " requires capability "@ + capability_name_spec(c)
            + " but it's not available in the current context"@,
        MacroFailure::Arity(name, p, a) => e matches CompilationError::MacroExpansionError(m) && m@
            == "Macro "@ + name + " expects "@ + decimal(p) + " arguments, got "@ + decimal(a),
    }
}

/// Does the result `r` of an expansion agree with `x`.
pub open spec fn expansion_matches(r: Result<AstNode, CompilationError>, x: Expanded, tier: TrustTier) -> bool {
    match x {
        Expanded::Done(v) => r matches Ok(n) && node_view(n) == v,
        Expanded::Failed(f) => r matches Err(e) && failure_matches(e, f, tier),
    }
}

/// Does `v` hold `c`.
fn caps_contain(v: &Vec<Capability>, c: Capability) -> (r: bool)
    ensures
        r == v@.contains(c),
{
    let mut i: usize = 0;
    while i < v.len()
        invariant
            i <= v@.len(),
            forall|j: int| 0 <= j < i ==> v@[j] != c,
        decreases v@.len() - i,
    {
        if v[i] == c {
            assert(v@[i as int] == c);
            return true;
        }
        i = i + 1;
    }
    false
}

/// Expands macros for a caller.
pub struct MacroExpander {
    /// The macros that may be expanded.
    pub macros: Vec<MacroDefinition>,
    /// The caller's context.
    pub context: MacroContext,
}

impl MacroExpander {
    /// What stays fixed while expanding.
    pub open spec fn env(self) -> MacroEnv {
        MacroEnv {
            macros: self.macros@,
            caller: self.context.caller_capabilities@.to_set(),
            tier: self.context.tier,
        }
    }

    /// What expanding changes.
    pub open spec fn exp_state(self) -> ExpansionState {
        ExpansionState {
            expansion: self.context.expansion_capabilities@.to_set(),
            location: self.context.location,
        }
    }

    /// An expander without macros for a caller of trust tier `tier`, with
    /// the capabilities the tier grants.
    pub fn new(tier: TrustTier) -> (r: Self)
        ensures
            r.macros@.len() == 0,
            r.context.caller_capabilities@ == granted_seq(tier),
            r.context.expansion_capabilities@ == granted_seq(tier),
            r.context.tier == tier,
            r.context.hygiene_scope.level == 0,
            r.context.hygiene_scope.captured@.len() == 0,
            r.context.location == unknown_location(),
    {
        MacroExpander {
            macros: Vec::new(),
            context: MacroContext {
                caller_capabilities: tier.granted_capabilities(),
                expansion_capabilities: tier.granted_capabilities(),
                tier,
                hygiene_scope: HygieneScope::new(),
                location: SourceLocation::default(),
            },
        }
    }

    /// Adds a macro after the others.
    pub fn add_macro(&mut self, macro_def: MacroDefinition)
        ensures
            final(self).macros@ == old(self).macros@.push(macro_def),
            final(self).context == old(self).context,
    {
        self.macros.push(macro_def);
    }

    /// The index of the first macro named `name`.
    #[verifier::loop_isolation(false)]
    fn find_macro_index(&self, name: &str) -> (r: Option<usize>)
        ensures
            match first_macro(self.macros@, name@, 0) {
                None => r is None,
                Some(i) => r matches Some(j) && j == i,
            },
    {
        let mut i: usize = 0;
        while i < self.macros.len()
            invariant
                i <= self.macros@.len(),
                first_macro(self.macros@, name@, 0) == first_macro(self.macros@, name@, i as int),
            decreases self.macros@.len() - i,
        {
            if str_eq(self.macros[i].name.as_str(), name) {
                assert(first_macro(self.macros@, name@, i as int) == Some(i as int));
                return Some(i);
            }
            i = i + 1;
        }
        None
    }

    /// The first macro named `name`.
    pub fn find_macro(&self, name: &str) -> (r: Option<&MacroDefinition>)
        ensures
            match first_macro(self.macros@, name@, 0) {
                None => r is None,
                Some(i) => r matches Some(d) && *d == self.macros@[i],
            },
    {
        proof {
            lemma_first_macro(self.macros@, name@, 0);
        }
        match self.find_macro_index(name) {
            Some(i) => Some(&self.macros[i]),
            None => None,
        }
    }

    /// Substitutes the bound variables of `ast` (see `substitute`); it
    /// never fails.
    #[verifier::loop_isolation(false)]
    fn expand_with_bindings(&self, ast: &AstNode, bindings: &Vec<(String, AstNode)>) -> (r: Result<
        AstNode,
        CompilationError,
    >)
        ensures
            r matches Ok(n) && node_view(n) == substitute(
                node_view(*ast),
                bindings_view(*bindings, bindings@.len() as int),
            ),
        decreases tree_size(*ast),
    {
        let ghost bv = bindings_view(*bindings, bindings@.len() as int);
        proof {
            lemma_bindings_view(*bindings, bindings@.len() as int);
        }
        match ast {
            AstNode::Variable(name) => {
                let mut i: usize = 0;
                while i < bindings.len()
                    invariant
                        i <= bindings@.len(),
                        bv == bindings_view(*bindings, bindings@.len() as int),
                        bv.len() == bindings@.len(),
                        forall|j: int|
                            0 <= j < bindings@.len() ==> #[trigger] bv[j] == (
                                bindings@[j].0@,
                                node_view(bindings@[j].1),
                            ),
                        first_bound(bv, name@, 0) == first_bound(bv, name@, i as int),
                    decreases bindings@.len() - i,
                {
                    if str_eq(bindings[i].0.as_str(), name.as_str()) {
                        assert(bv[i as int].0 == name@);
                        assert(first_bound(bv, name@, i as int) == Some(bv[i as int].1));
                        return Ok(bindings[i].1.deep_clone());
                    }
                    i = i + 1;
                }
                Ok(ast.deep_clone())
            },
            AstNode::Call { function, arguments, location } => {
                let f = match self.expand_with_bindings(function, bindings) {
                    Ok(n) => n,
                    Err(e) => {
                        return Err(e);
                    },
                };
                let mut out: Vec<AstNode> = Vec::new();
                let mut i: usize = 0;
                while i < arguments.len()
                    invariant
                        i <= arguments@.len(),
                        out@.len() == i,
                        bv == bindings_view(*bindings, bindings@.len() as int),
                        forall|j: int|
                            0 <= j < i ==> node_view(#[trigger] out@[j]) == substitute(
                                node_view(arguments@[j]),
                                bv,
                            ),
                    decreases arguments@.len() - i,
                {
                    proof {
                        lemma_trees_size(*arguments, i as int, arguments@.len() as int);
                    }
                    let a = match self.expand_with_bindings(&arguments[i], bindings) {
                        Ok(n) => n,
                        Err(e) => {
                            return Err(e);
                        },
                    };
                    out.push(a);
                    i = i + 1;
                }
                proof {
                    lemma_nodes_view(out, out@.len() as int);
                    lemma_nodes_view(*arguments, arguments@.len() as int);
                    lemma_substitute_all(nodes_view(*arguments, arguments@.len() as int), bv);
                    assert(nodes_view(out, out@.len() as int) =~= substitute_all(
                        nodes_view(*arguments, arguments@.len() as int),
                        bv,
                    ));
                }
                Ok(AstNode::Call { function: Box::new(f), arguments: out, location: *location })
            },
            _ => Ok(ast.deep_clone()),
        }
    }
}

impl MacroExpander {
    /// Expands the macro `name` with `arguments` at `location` (see
    /// `expand_macro_spec`); the arguments are not expanded themselves.
    #[verifier::loop_isolation(false)]
    pub fn expand_macro(&mut self, name: &str, arguments: Vec<AstNode>, location: SourceLocation) -> (r:
        Result<AstNode, CompilationError>)
        ensures
            final(self).macros@ == old(self).macros@,
            final(self).context.caller_capabilities@ == old(self).context.caller_capabilities@,
            final(self).context.tier == old(self).context.tier,
            final(self).context.hygiene_scope == old(self).context.hygiene_scope,
            final(self).exp_state() == expand_macro_spec(
                old(self).env(),
                old(self).exp_state(),
                name@,
                all_nodes_view(arguments),
                location,
            ).0,
            expansion_matches(
                r,
                expand_macro_spec(
                    old(self).env(),
                    old(self).exp_state(),
                    name@,
                    all_nodes_view(arguments),
                    location,
                ).1,
                old(self).context.tier,
            ),
    {
        proof {
            lemma_first_macro(self.macros@, name@, 0);
        }
        let i = match self.find_macro_index(name) {
            Some(i) => i,
            None => {
                let mut m = String::from_str("Macro ");
                m.append(name);
                m.append(" not found");
                return Err(CompilationError::MacroExpansionError(m));
            },
        };
        let tier = self.context.tier;
        let declared = self.macros[i].declared_tier;
        if !tier.is_at_least(&declared) {
            let mut m = String::from_str("Macro ");
            m.append(name);
            m.append(" requires tier ");
            m.append(declared.name());
            m.append(", but current tier is ");
            m.append(tier.name());
            return Err(CompilationError::MacroExpansionError(m));
        }
        let ghost caller = self.context.caller_capabilities@.to_set();
        let ghost req = self.macros@[i as int].required_capabilities@;
        let mut expansion: Vec<Capability> = Vec::new();
        let mut k: usize = 0;
        while k < self.macros[i].required_capabilities.len()
            invariant
                k <= req.len(),
                req == self.macros@[i as int].required_capabilities@,
                expansion@.no_duplicates(),
                expansion@.to_set() == caller.intersect(req.take(k as int).to_set()),
            decreases req.len() - k,
        {
            let c = self.macros[i].required_capabilities[k];
            proof {
                req.take(k as int).lemma_push_to_set_commute(c);
                assert(req.take(k as int + 1) =~= req.take(k as int).push(c));
            }
            if caps_contain(&self.context.caller_capabilities, c) {
                add_capability(&mut expansion, c);
            }
            k = k + 1;
            assert(expansion@.to_set() =~= caller.intersect(req.take(k as int).to_set()));
        }
        assert(req.take(req.len() as int) =~= req);
        self.context.expansion_capabilities = expansion;
        self.context.location = location;
        let mut k: usize = 0;
        while k < self.macros[i].required_capabilities.len()
            invariant
                k <= req.len(),
                req == self.macros@[i as int].required_capabilities@,
                self.context.expansion_capabilities@.to_set() == caller.intersect(req.to_set()),
                first_missing(req, caller, 0) == first_missing(req, caller, k as int),
            decreases req.len() - k,
        {
            let c = self.macros[i].required_capabilities[k];
            assert(req.to_set().contains(c)) by {
                assert(req[k as int] == c);
            }
            if !caps_contain(&self.context.expansion_capabilities, c) {
                assert(!self.context.expansion_capabilities@.to_set().contains(c));
                let mut m = String::from_str("Macro ");
                m.append(name);
                m.append(" requires capability ");
                m.append(capability_name(c));
                m.append(" but it's not available in the current context");
                return Err(CompilationError::CapabilityError(CapabilityViolation {
                    required: c,
                    tier,
                    location: self.macros[i].location,
                    suggestion: m,
                }));
            }
            assert(self.context.expansion_capabilities@.to_set().contains(c));
            k = k + 1;
        }
        let np = self.macros[i].parameters.len();
        let na = arguments.len();
        proof {
            lemma_nodes_view(arguments, arguments@.len() as int);
        }
        if np != na {
            let mut m = String::from_str("Macro ");
            m.append(name);
            m.append(" expects ");
            push_decimal(&mut m, np as u64);
            m.append(" arguments, got ");
            push_decimal(&mut m, na as u64);
            return Err(CompilationError::MacroExpansionError(m));
        }
        let mut bindings: Vec<(String, AstNode)> = Vec::new();
        let mut j: usize = 0;
        while j < np
            invariant
                j <= np,
                np == self.macros@[i as int].parameters@.len(),
                na == arguments@.len(),
                np == na,
                bindings@.len() == j,
                forall|q: int|
                    0 <= q < j ==> (#[trigger] bindings@[q]).0@ == self.macros@[i as int].parameters@[q]@
                        && node_view(bindings@[q].1) == node_view(arguments@[q]),
            decreases np - j,
        {
            let p = self.macros[i].parameters[j].clone();
            let a = arguments[j].deep_clone();
            bindings.push((p, a));
            j = j + 1;
        }
        proof {
            lemma_bindings_view(bindings, bindings@.len() as int);
            lemma_nodes_view(arguments, arguments@.len() as int);
            assert(bindings_view(bindings, bindings@.len() as int) =~= zip_bindings(
                strings_view(self.macros@[i as int].parameters),
                all_nodes_view(arguments),
            ));
        }
        self.expand_with_bindings(&self.macros[i].body, &bindings)
    }
}

/// Once the expansion of a prefix fails, the expansion of a longer prefix
/// fails the same way, in the same state.
proof fn lemma_expand_seq_fails(env: MacroEnv, st: ExpansionState, v: Vec<AstNode>, i: int, k: int)
    requires
        0 <= i <= k <= v.len(),
        expand_all_seq(env, st, nodes_view(v, i)).1 is Err,
    ensures
        expand_all_seq(env, st, nodes_view(v, k)) == expand_all_seq(env, st, nodes_view(v, i)),
    decreases k - i,
{
    if k > i {
        lemma_expand_seq_fails(env, st, v, i, k - 1);
        let s = nodes_view(v, k);
        assert(s.subrange(0, s.len() - 1) =~= nodes_view(v, k - 1)) by {
            lemma_nodes_view(v, k);
            lemma_nodes_view(v, k - 1);
        }
    }
}

impl MacroExpander {
    /// Expands every macro use of `ast` (see `expand_all_spec`).
    #[verifier::loop_isolation(false)]
    fn expand_all_ref(&mut self, ast: &AstNode) -> (r: Result<AstNode, CompilationError>)
        ensures
            final(self).macros@ == old(self).macros@,
            final(self).context.caller_capabilities@ == old(self).context.caller_capabilities@,
            final(self).context.tier == old(self).context.tier,
            final(self).context.hygiene_scope == old(self).context.hygiene_scope,
            final(self).exp_state() == expand_all_spec(old(self).env(), old(self).exp_state(), node_view(*ast)).0,
            expansion_matches(
                r,
                expand_all_spec(old(self).env(), old(self).exp_state(), node_view(*ast)).1,
                old(self).context.tier,
            ),
        decreases tree_size(*ast),
    {
        let ghost env = self.env();
        match ast {
            AstNode::MacroExpansion { name, arguments, location } => {
                let args = clone_nodes(arguments);
                self.expand_macro(name.as_str(), args, *location)
            },
            AstNode::Call { function, arguments, location } => {
                let f = match self.expand_all_ref(function) {
                    Ok(n) => n,
                    Err(e) => {
                        return Err(e);
                    },
                };
                let ghost st1 = self.exp_state();
                let ghost mut done: Seq<NodeView> = seq![];
                let mut out: Vec<AstNode> = Vec::new();
                let mut i: usize = 0;
                while i < arguments.len()
                    invariant
                        i <= arguments@.len(),
                        self.env() == env,
                        self.macros@ == old(self).macros@,
                        self.context.caller_capabilities@ == old(self).context.caller_capabilities@,
                        self.context.tier == old(self).context.tier,
                        self.context.hygiene_scope == old(self).context.hygiene_scope,
                        out@.len() == i,
                        done.len() == i,
                        forall|j: int| 0 <= j < i ==> node_view(#[trigger] out@[j]) == done[j],
                        expand_all_seq(env, st1, nodes_view(*arguments, i as int)) == (
                            self.exp_state(),
                            Ok::<Seq<NodeView>, MacroFailure>(done),
                        ),
                    decreases arguments@.len() - i,
                {
                    proof {
                        lemma_trees_size(*arguments, i as int, arguments@.len() as int);
                        lemma_nodes_view(*arguments, i as int + 1);
                        let s = nodes_view(*arguments, i as int + 1);
                        assert(s.subrange(0, s.len() - 1) =~= nodes_view(*arguments, i as int));
                    }
                    let ghost before = self.exp_state();
                    match self.expand_all_ref(&arguments[i]) {
                        Ok(n) => {
                            proof {
                                done = done.push(node_view(n));
                            }
                            out.push(n);
                        },
                        Err(e) => {
                            proof {
                                lemma_expand_seq_fails(
                                    env,
                                    st1,
                                    *arguments,
                                    i as int + 1,
                                    arguments@.len() as int,
                                );
                            }
                            return Err(e);
                        },
                    }
                    i = i + 1;
                }
                proof {
                    lemma_nodes_view(out, out@.len() as int);
                    assert(nodes_view(out, out@.len() as int) =~= done);
                }
                Ok(AstNode::Call { function: Box::new(f), arguments: out, location: *location })
            },
            _ => Ok(ast.deep_clone()),
        }
    }

    /// Expands every macro use of `ast` (see `expand_all_spec`).
    pub fn expand_all(&mut self, ast: AstNode) -> (r: Result<AstNode, CompilationError>)
        ensures
            final(self).macros@ == old(self).macros@,
            final(self).context.caller_capabilities@ == old(self).context.caller_capabilities@,
            final(self).context.tier == old(self).context.tier,
            final(self).context.hygiene_scope == old(self).context.hygiene_scope,
            final(self).exp_state() == expand_all_spec(old(self).env(), old(self).exp_state(), node_view(ast)).0,
            expansion_matches(
                r,
                expand_all_spec(old(self).env(), old(self).exp_state(), node_view(ast)).1,
                old(self).context.tier,
            ),
    {
        self.expand_all_ref(&ast)
    }
}

/// Expands the macro uses of `ast` for a caller of trust tier `tier` with
/// no macro defined: any macro use fails as not found, and a tree without
/// one is given back unchanged.
pub fn expand_macros(ast: AstNode, tier: TrustTier) -> (r: Result<AstNode, CompilationError>)
    ensures
        expansion_matches(
            r,
            expand_all_spec(
                MacroEnv { macros: seq![], caller: granted_seq(tier).to_set(), tier },
                ExpansionState { expansion: granted_seq(tier).to_set(), location: unknown_location() },
                node_view(ast),
            ).1,
            tier,
        ),
{
    let mut expander = MacroExpander::new(tier);
    assert(expander.macros@ =~= Seq::<MacroDefinition>::empty());
    assert(expander.env() == MacroEnv { macros: seq![], caller: granted_seq(tier).to_set(), tier });
    expander.expand_all(ast)
}

} // verus!
