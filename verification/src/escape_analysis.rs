//! Escape analysis: which variables outlive the scope that defines them and
//! so must be captured by closures rather than kept on the stack.
//!
//! Variables are identified by a number derived from their name with std's
//! `DefaultHasher`; scopes are sets of such numbers.
use vstd::prelude::*;
use std::collections::{HashMap, HashSet};
use std::hash::{Hash, Hasher};
use crate::ast::{AstNode, debug_node, tree_size, trees_size, bound_trees_size, lemma_trees_size,
    lemma_bound_trees_size};
use crate::error::{CompilationError, SourceLocation, unknown_location};
use crate::text::{concat2, decimal, push_decimal, to_owned_string};

verus! {

broadcast use vstd::std_specs::hash::group_hash_axioms;

/// The name of what `DefaultHasher::new()` gives after hashing a string
/// slice with `Hash::hash` and calling `finish`.
pub uninterp spec fn name_hash(name: Seq<char>) -> u64;

/// Hashes a name with a fresh `DefaultHasher`. Its keys are fixed, and a
/// string is fed to it as its bytes and a terminating byte, which SipHash
/// reads independently of the platform's byte order, so equal names hash
/// alike; the hash value itself is not restated.
#[verifier::external_body]
fn hash_name(name: &str) -> (r: u64)
    ensures
        r == name_hash(name@),
{
    let mut hasher = std::collections::hash_map::DefaultHasher::new();
    name.hash(&mut hasher);
    hasher.finish()
}

/// The number that stands for a variable name.
pub open spec fn var_index(name: Seq<char>) -> usize {
    name_hash(name) as usize
}

/// The numbers of a list of names.
pub open spec fn name_set(names: Seq<String>) -> Set<usize> {
    Set::new(|v: usize| exists|i: int| 0 <= i < names.len() && var_index(names[i]@) == v)
}

/// The numbers of the names bound by a list of bindings.
pub open spec fn binding_set(bindings: Seq<(String, AstNode)>) -> Set<usize> {
    Set::new(|v: usize| exists|i: int| 0 <= i < bindings.len() && var_index(bindings[i].0@) == v)
}

/// Is `v` bound in one of the scopes.
pub open spec fn bound(envs: Seq<Set<usize>>, v: usize) -> bool {
    exists|i: int| 0 <= i < envs.len() && envs[i].contains(v)
}

/// The sets held by a stack of scopes.
pub open spec fn env_view(s: Seq<HashSet<usize>>) -> Seq<Set<usize>> {
    s.map_values(|h: HashSet<usize>| h@)
}

/// The variable references of `e` that no scope binds, in the order they
/// are met (repeats kept). Lambdas and lets bind their names for what they
/// contain; calls are searched through; other nodes contribute nothing.
pub open spec fn free_refs(envs: Seq<Set<usize>>, e: AstNode) -> Seq<usize>
    decreases e, 0int,
{
    match e {
        AstNode::Variable(n) => if bound(envs, var_index(n@)) {
            seq![]
        } else {
            seq![var_index(n@)]
        },
        AstNode::Lambda { parameters, body, .. } => free_refs(envs.push(name_set(parameters@)), *body),
        AstNode::Let { bindings, body, .. } => {
            let inner = envs.push(binding_set(bindings@));
            free_refs_bound(inner, bindings, bindings.len() as int) + free_refs(inner, *body)
        },
        AstNode::Call { function, arguments, .. } => free_refs(envs, *function) + free_refs_list(
            envs,
            arguments,
            arguments.len() as int,
        ),
        _ => seq![],
    }
}

/// `free_refs` of the first `k` trees of `v`, one after the other.
pub open spec fn free_refs_list(envs: Seq<Set<usize>>, v: Vec<AstNode>, k: int) -> Seq<usize>
    decreases v, k,
{
    if k <= 0 || k > v.len() {
        seq![]
    } else {
        free_refs_list(envs, v, k - 1) + free_refs(envs, v[k - 1])
    }
}

/// `free_refs` of the values of the first `k` bindings of `v`.
pub open spec fn free_refs_bound(envs: Seq<Set<usize>>, v: Vec<(String, AstNode)>, k: int) -> Seq<
    usize,
>
    decreases v, k,
{
    if k <= 0 || k > v.len() {
        seq![]
    } else {
        free_refs_bound(envs, v, k - 1) + free_refs(envs, v[k - 1].1)
    }
}

/// Identifies a function during the analysis.
#[derive(Debug, Clone, Hash, PartialEq, Eq, Structural)]
pub struct FunctionId(pub usize);

/// Whether a variable outlives its scope.
#[derive(Debug, Clone, PartialEq, Eq, Structural)]
pub enum EscapeStatus {
    /// It escapes: it must be captured.
    Escaping,
    /// It stays in its scope.
    NonEscaping,
}

/// What the analysis recorded of a function.
#[derive(Debug, Clone)]
pub struct FunctionInfo {
    /// The number of its parameters.
    pub local_count: usize,
    /// The status of each variable number below the context's bound.
    pub escape_info: HashMap<usize, EscapeStatus>,
    /// The free variables of its body.
    pub free_variables: Vec<usize>,
}

/// The abstract content of a `FunctionInfo`.
pub struct InfoView {
    /// The number of parameters.
    pub local_count: usize,
    /// The status of each variable number.
    pub escape_info: Map<usize, EscapeStatus>,
    /// The free variables.
    pub free_variables: Seq<usize>,
}

impl FunctionInfo {
    /// The abstract content.
    pub open spec fn info_view(self) -> InfoView {
        InfoView {
            local_count: self.local_count,
            escape_info: self.escape_info@,
            free_variables: self.free_variables@,
        }
    }
}

/// The state of an escape analysis.
///
/// The recorded functions are keyed by the number of their `FunctionId`.
#[derive(Debug)]
pub struct EscapeAnalysis {
    /// The variables found to escape.
    pub escaping_vars: HashSet<usize>,
    /// The function being analysed, if any.
    pub current_function: Option<FunctionId>,
    /// The scopes in force, innermost last.
    pub variable_environments: Vec<HashSet<usize>>,
    /// What was recorded of each function, by its number.
    pub function_info: HashMap<usize, FunctionInfo>,
}

impl EscapeAnalysis {
    /// The recorded functions, by their abstract content.
    pub open spec fn infos(self) -> Map<usize, InfoView> {
        self.function_info@.map_values(|f: FunctionInfo| f.info_view())
    }

    /// An analysis with nothing recorded and no scope.
    pub fn new() -> (r: Self)
        ensures
            r.escaping_vars@ == Set::<usize>::empty(),
            r.current_function is None,
            r.variable_environments@.len() == 0,
            r.function_info@ == Map::<usize, FunctionInfo>::empty(),
    {
        EscapeAnalysis {
            escaping_vars: HashSet::new(),
            current_function: None,
            variable_environments: Vec::new(),
            function_info: HashMap::new(),
        }
    }

    /// The number that stands for a variable name.
    pub fn get_variable_index(&self, var_name: &str) -> (r: usize)
        ensures
            r == var_index(var_name@),
    {
        hash_name(var_name) as usize
    }

    /// The free variables of `expr` with respect to the scopes in force, in
    /// the order they are met.
    pub fn find_free_variables(&self, expr: &AstNode) -> (r: Vec<usize>)
        ensures
            r@ == free_refs(env_view(self.variable_environments@), *expr),
    {
        let mut free_vars: Vec<usize> = Vec::new();
        self.find_free_variables_recursive(expr, &mut free_vars);
        assert(free_vars@ =~= free_refs(env_view(self.variable_environments@), *expr));
        free_vars
    }

    /// Appends the free variables of `expr` to `free_vars`.
    pub fn find_free_variables_recursive(&self, expr: &AstNode, free_vars: &mut Vec<usize>)
        ensures
            final(free_vars)@ == old(free_vars)@ + free_refs(
                env_view(self.variable_environments@),
                *expr,
            ),
    {
        let mut inner: Vec<HashSet<usize>> = Vec::new();
        collect_free(&self.variable_environments, &mut inner, expr, free_vars);
        assert(env_view(self.variable_environments@) + env_view(Seq::<HashSet<usize>>::empty())
            =~= env_view(self.variable_environments@));
    }
}

impl Default for EscapeAnalysis {
    fn default() -> (r: Self)
        ensures
            r.escaping_vars@ == Set::<usize>::empty(),
            r.current_function is None,
            r.variable_environments@.len() == 0,
            r.function_info@ == Map::<usize, FunctionInfo>::empty(),
    {
        EscapeAnalysis::new()
    }
}

/// The set of numbers of `names`.
fn names_to_set(names: &Vec<String>) -> (r: HashSet<usize>)
    ensures
        r@ == name_set(names@),
{
    let mut set: HashSet<usize> = HashSet::new();
    let mut i: usize = 0;
    while i < names.len()
        invariant
            i <= names@.len(),
            set@ == Set::new(
                |v: usize| exists|j: int| 0 <= j < i && var_index(names@[j]@) == v,
            ),
        decreases names@.len() - i,
    {
        let v = hash_name(names[i].as_str()) as usize;
        set.insert(v);
        i = i + 1;
        assert(set@ =~= Set::new(
            |w: usize| exists|j: int| 0 <= j < i && var_index(names@[j]@) == w,
        )) by {
            assert forall|w: usize| set@.contains(w) implies (exists|j: int|
                0 <= j < i && var_index(names@[j]@) == w) by {
                if w == v {
                    assert(var_index(names@[i - 1]@) == w);
                }
            }
        }
    }
    assert(set@ =~= name_set(names@));
    set
}

/// The set of numbers of the names bound by `bindings`.
fn bindings_to_set(bindings: &Vec<(String, AstNode)>) -> (r: HashSet<usize>)
    ensures
        r@ == binding_set(bindings@),
{
    let mut set: HashSet<usize> = HashSet::new();
    let mut i: usize = 0;
    while i < bindings.len()
        invariant
            i <= bindings@.len(),
            set@ == Set::new(
                |v: usize| exists|j: int| 0 <= j < i && var_index(bindings@[j].0@) == v,
            ),
        decreases bindings@.len() - i,
    {
        let v = hash_name(bindings[i].0.as_str()) as usize;
        set.insert(v);
        i = i + 1;
        assert(set@ =~= Set::new(
            |w: usize| exists|j: int| 0 <= j < i && var_index(bindings@[j].0@) == w,
        )) by {
            assert forall|w: usize| set@.contains(w) implies (exists|j: int|
                0 <= j < i && var_index(bindings@[j].0@) == w) by {
                if w == v {
                    assert(var_index(bindings@[i - 1].0@) == w);
                }
            }
        }
    }
    assert(set@ =~= binding_set(bindings@));
    set
}

/// Is `v` in one of the scopes of `outer` followed by `inner`.
fn is_bound(outer: &Vec<HashSet<usize>>, inner: &Vec<HashSet<usize>>, v: usize) -> (r: bool)
    ensures
        r == bound(env_view(outer@) + env_view(inner@), v),
{
    let ghost all = env_view(outer@) + env_view(inner@);
    let mut i: usize = 0;
    while i < outer.len()
        invariant
            i <= outer@.len(),
            all == env_view(outer@) + env_view(inner@),
            forall|j: int| 0 <= j < i ==> !all[j].contains(v),
        decreases outer@.len() - i,
    {
        if outer[i].contains(&v) {
            assert(all[i as int].contains(v));
            return true;
        }
        i = i + 1;
    }
    let mut k: usize = 0;
    while k < inner.len()
        invariant
            k <= inner@.len(),
            all == env_view(outer@) + env_view(inner@),
            forall|j: int| 0 <= j < outer@.len() + k ==> !all[j].contains(v),
        decreases inner@.len() - k,
    {
        if inner[k].contains(&v) {
            assert(all[outer@.len() + k].contains(v));
            return true;
        }
        k = k + 1;
    }
    false
}

/// Pushing a scope pushes its set.
proof fn lemma_env_push(outer: Seq<HashSet<usize>>, inner: Seq<HashSet<usize>>, h: HashSet<usize>)
    ensures
        env_view(outer) + env_view(inner.push(h)) == (env_view(outer) + env_view(inner)).push(h@),
{
    assert(env_view(outer) + env_view(inner.push(h)) =~= (env_view(outer) + env_view(
        inner,
    )).push(h@));
}

/// Appends the free variables of `expr` under the scopes of `outer`
/// followed by `inner` to `free`; `inner` is used as a stack of the scopes
/// opened on the way down and is left as it was.
#[verifier::loop_isolation(false)]
fn collect_free(
    outer: &Vec<HashSet<usize>>,
    inner: &mut Vec<HashSet<usize>>,
    expr: &AstNode,
    free: &mut Vec<usize>,
)
    ensures
        final(inner)@ == old(inner)@,
        final(free)@ == old(free)@ + free_refs(env_view(outer@) + env_view(old(inner)@), *expr),
    decreases tree_size(*expr),
{
    let ghost envs = env_view(outer@) + env_view(inner@);
    match expr {
        AstNode::Variable(name) => {
            let v = hash_name(name.as_str()) as usize;
            if !is_bound(outer, inner, v) {
                free.push(v);
                assert(free@ =~= old(free)@ + seq![v]);
            } else {
                assert(free@ =~= old(free)@ + Seq::<usize>::empty());
            }
        },
        AstNode::Lambda { parameters, body, .. } => {
            let set = names_to_set(parameters);
            proof {
                lemma_env_push(outer@, inner@, set);
            }
            inner.push(set);
            collect_free(outer, inner, body, free);
            let _ = inner.pop();
            assert(inner@ =~= old(inner)@);
        },
        AstNode::Let { bindings, body, .. } => {
            let set = bindings_to_set(bindings);
            proof {
                lemma_env_push(outer@, inner@, set);
            }
            inner.push(set);
            let ghost e2 = envs.push(binding_set(bindings@));
            let mut i: usize = 0;
            while i < bindings.len()
                invariant
                    i <= bindings@.len(),
                    inner@ == old(inner)@.push(set),
                    env_view(outer@) + env_view(inner@) == e2,
                    free@ == old(free)@ + free_refs_bound(e2, *bindings, i as int),
                decreases bindings@.len() - i,
            {
                proof {
                    lemma_bound_trees_size(*bindings, i as int, bindings@.len() as int);
                }
                collect_free(outer, inner, &bindings[i].1, free);
                i = i + 1;
                assert(free@ =~= old(free)@ + free_refs_bound(e2, *bindings, i as int));
            }
            collect_free(outer, inner, body, free);
            let _ = inner.pop();
            assert(inner@ =~= old(inner)@);
            assert(free@ =~= old(free)@ + free_refs(envs, *expr));
        },
        AstNode::Call { function, arguments, .. } => {
            collect_free(outer, inner, function, free);
            let ghost mid = free@;
            let mut i: usize = 0;
            while i < arguments.len()
                invariant
                    i <= arguments@.len(),
                    inner@ == old(inner)@,
                    free@ == mid + free_refs_list(envs, *arguments, i as int),
                decreases arguments@.len() - i,
            {
                proof {
                    lemma_trees_size(*arguments, i as int, arguments@.len() as int);
                }
                collect_free(outer, inner, &arguments[i], free);
                i = i + 1;
                assert(free@ =~= mid + free_refs_list(envs, *arguments, i as int));
            }
            assert(free@ =~= old(free)@ + free_refs(envs, *expr));
        },
        _ => {
            assert(free@ =~= old(free)@ + free_refs(envs, *expr));
        },
    }
}

/// What an analysis keeps while it walks a tree.
pub struct AnalysisContext {
    /// The function being analysed, if any.
    pub current_function: Option<FunctionId>,
    /// Variable numbers below this bound get a status when a function is
    /// recorded.
    pub max_variable: usize,
    /// Whether the expression analysed is captured by a closure.
    pub is_captured: bool,
    /// The errors reported so far.
    pub errors: Vec<CompilationError>,
}

impl AnalysisContext {
    /// A context with no function, bound 0, nothing captured and no error.
    pub fn new() -> (r: Self)
        ensures
            r.current_function is None,
            r.max_variable == 0,
            !r.is_captured,
            r.errors@.len() == 0,
    {
        AnalysisContext { current_function: None, max_variable: 0, is_captured: false, errors: Vec::new() }
    }

    /// Records an error.
    pub fn report_error(&mut self, error: CompilationError)
        ensures
            final(self).errors@ == old(self).errors@.push(error),
            final(self).current_function == old(self).current_function,
            final(self).max_variable == old(self).max_variable,
            final(self).is_captured == old(self).is_captured,
    {
        self.errors.push(error);
    }

    /// Whether the expression analysed is captured by a closure.
    pub fn is_captured(&self) -> (r: bool)
        ensures
            r == self.is_captured,
    {
        self.is_captured
    }

    /// The settings that steer an analysis.
    pub open spec fn settings(self) -> EscSettings {
        EscSettings {
            current: self.current_function,
            max_variable: self.max_variable,
            captured: self.is_captured,
        }
    }
}

/// The settings of an analysis context, which the walk does not change.
pub struct EscSettings {
    /// The function being analysed.
    pub current: Option<FunctionId>,
    /// The bound on recorded variable numbers.
    pub max_variable: usize,
    /// Whether the expression is captured.
    pub captured: bool,
}

/// What an analysis has found so far.
pub struct EscState {
    /// The escaping variables.
    pub escaping: Set<usize>,
    /// The recorded functions.
    pub infos: Map<usize, InfoView>,
}

/// An error the analysis reports.
pub enum EscError {
    /// A variable that no scope binds.
    NotFound(usize),
    /// A kind of node the analysis does not handle (definitions and
    /// recursive lets).
    Unsupported,
}

/// The message prefix of an unsupported node; the node's `Debug` text
/// follows it.
pub open spec fn unsupported_prefix() -> Seq<char> {
    "Unsupported expression type in escape analysis: "@
}

/// Is `e` the error reported for `m`: a parse error at the unknown
/// location whose message is `Variable not found: ` and the number, or the
/// unsupported-node prefix followed by the node's text.
pub open spec fn error_matches(e: CompilationError, m: EscError) -> bool {
    match m {
        EscError::NotFound(v) => e matches CompilationError::ParseError { message, location } && message@
            == "Variable not found: "@ + decimal(v as nat) && location == unknown_location(),
        EscError::Unsupported => e matches CompilationError::ParseError { message, location }
            && unsupported_prefix().is_prefix_of(message@) && location == unknown_location(),
    }
}

/// `after` is `before` with errors matching `m` appended.
pub open spec fn errors_extended(
    before: Seq<CompilationError>,
    after: Seq<CompilationError>,
    m: Seq<EscError>,
) -> bool {
    &&& after.len() == before.len() + m.len()
    &&& forall|i: int| 0 <= i < before.len() ==> after[i] == before[i]
    &&& forall|j: int| 0 <= j < m.len() ==> error_matches(#[trigger] after[before.len() + j], m[j])
}

/// The statuses recorded for a function: every number below `max`, marked
/// by whether it escapes.
pub open spec fn status_map(escaping: Set<usize>, max: usize) -> Map<usize, EscapeStatus> {
    Map::new(
        |k: usize| k < max,
        |k: usize|
            if escaping.contains(k) {
                EscapeStatus::Escaping
            } else {
                EscapeStatus::NonEscaping
            },
    )
}

/// What a lambda leaves once its body is analysed (`st1`): its body's free
/// references `fv` escape, and when a function is being analysed its record
/// becomes the parameter count, the status of each number below the bound,
/// and `fv`.
pub open spec fn lambda_finish(st1: EscState, fv: Seq<usize>, cx: EscSettings, nparams: usize) -> EscState {
    let esc = st1.escaping.union(fv.to_set());
    EscState {
        escaping: esc,
        infos: match cx.current {
            Some(f) => st1.infos.insert(
                f.0,
                InfoView {
                    local_count: nparams,
                    escape_info: status_map(esc, cx.max_variable),
                    free_variables: fv,
                },
            ),
            None => st1.infos,
        },
    }
}

/// The analysis of `e` under the scopes `envs`, from state `st`.
///
/// A bound variable escapes when the context is captured. A lambda is
/// analysed with its parameters in scope; then every reference of its body
/// to a variable that the lambda itself does not bind (its parameters and
/// the lets inside it), that is a variable used outside the scope that
/// defines it, escapes, and when a function is
/// being analysed its record becomes the lambda's parameter count, the
/// status of each number below the bound, and those free references. Lets
/// analyse their values and body with their names in scope; the other
/// nodes analyse their children left to right.
pub open spec fn analyze(st: EscState, envs: Seq<Set<usize>>, cx: EscSettings, e: AstNode) -> EscState
    decreases e, 0int,
{
    match e {
        AstNode::Variable(n) => {
            let v = var_index(n@);
            if bound(envs, v) && cx.captured {
                EscState { escaping: st.escaping.insert(v), infos: st.infos }
            } else {
                st
            }
        },
        AstNode::Lambda { parameters, body, .. } => lambda_finish(
            analyze(st, envs.push(name_set(parameters@)), cx, *body),
            free_refs(seq![name_set(parameters@)], *body),
            cx,
            parameters.len(),
        ),
        AstNode::Let { bindings, body, .. } => {
            let inner = envs.push(binding_set(bindings@));
            analyze(analyze_bound(st, inner, cx, bindings, bindings.len() as int), inner, cx, *body)
        },
        AstNode::Call { function, arguments, .. } => analyze_list(
            analyze(st, envs, cx, *function),
            envs,
            cx,
            arguments,
            arguments.len() as int,
        ),
        AstNode::If { condition, then_branch, else_branch, .. } => analyze(
            analyze(analyze(st, envs, cx, *condition), envs, cx, *then_branch),
            envs,
            cx,
            *else_branch,
        ),
        AstNode::TrustTier { expression, .. } => analyze(st, envs, cx, *expression),
        AstNode::MacroDefinition { body, .. } => analyze(st, envs, cx, *body),
        AstNode::MacroExpansion { arguments, .. } => analyze_list(
            st,
            envs,
            cx,
            arguments,
            arguments.len() as int,
        ),
        AstNode::FfiCall { arguments, .. } => analyze_list(st, envs, cx, arguments, arguments.len() as int),
        AstNode::List { elements, .. } => analyze_list(st, envs, cx, elements, elements.len() as int),
        AstNode::Cons { car, cdr, .. } => analyze(analyze(st, envs, cx, *car), envs, cx, *cdr),
        _ => st,
    }
}

/// `analyze` of the first `k` trees of `v`, in order.
pub open spec fn analyze_list(
    st: EscState,
    envs: Seq<Set<usize>>,
    cx: EscSettings,
    v: Vec<AstNode>,
    k: int,
) -> EscState
    decreases v, k,
{
    if k <= 0 || k > v.len() {
        st
    } else {
        analyze(analyze_list(st, envs, cx, v, k - 1), envs, cx, v[k - 1])
    }
}

/// The analysis never takes a variable out of the escaping set: what
/// escaped before analysing an expression still escapes afterwards.
pub proof fn lemma_analysis_only_adds_escaping(st: EscState, envs: Seq<Set<usize>>, cx: EscSettings, e: AstNode)
    ensures
        st.escaping.subset_of(analyze(st, envs, cx, e).escaping),
    decreases e, 0int,
{
    match e {
        AstNode::Lambda { parameters, body, .. } => {
            lemma_analysis_only_adds_escaping(st, envs.push(name_set(parameters@)), cx, *body);
        },
        AstNode::Let { bindings, body, .. } => {
            let inner = envs.push(binding_set(bindings@));
            lemma_bound_only_adds_escaping(st, inner, cx, bindings, bindings.len() as int);
            lemma_analysis_only_adds_escaping(
                analyze_bound(st, inner, cx, bindings, bindings.len() as int),
                inner,
                cx,
                *body,
            );
        },
        AstNode::Call { function, arguments, .. } => {
            lemma_analysis_only_adds_escaping(st, envs, cx, *function);
            lemma_list_only_adds_escaping(analyze(st, envs, cx, *function), envs, cx, arguments, arguments.len() as int);
        },
        AstNode::If { condition, then_branch, else_branch, .. } => {
            let s1 = analyze(st, envs, cx, *condition);
            let s2 = analyze(s1, envs, cx, *then_branch);
            lemma_analysis_only_adds_escaping(st, envs, cx, *condition);
            lemma_analysis_only_adds_escaping(s1, envs, cx, *then_branch);
            lemma_analysis_only_adds_escaping(s2, envs, cx, *else_branch);
        },
        AstNode::TrustTier { expression, .. } => {
            lemma_analysis_only_adds_escaping(st, envs, cx, *expression);
        },
        AstNode::MacroDefinition { body, .. } => {
            lemma_analysis_only_adds_escaping(st, envs, cx, *body);
        },
        AstNode::MacroExpansion { arguments, .. } => {
            lemma_list_only_adds_escaping(st, envs, cx, arguments, arguments.len() as int);
        },
        AstNode::FfiCall { arguments, .. } => {
            lemma_list_only_adds_escaping(st, envs, cx, arguments, arguments.len() as int);
        },
        AstNode::List { elements, .. } => {
            lemma_list_only_adds_escaping(st, envs, cx, elements, elements.len() as int);
        },
        AstNode::Cons { car, cdr, .. } => {
            lemma_analysis_only_adds_escaping(st, envs, cx, *car);
            lemma_analysis_only_adds_escaping(analyze(st, envs, cx, *car), envs, cx, *cdr);
        },
        _ => {},
    }
}

/// The analysis of a list of expressions never takes a variable out of the
/// escaping set.
proof fn lemma_list_only_adds_escaping(st: EscState, envs: Seq<Set<usize>>, cx: EscSettings, v: Vec<AstNode>, k: int)
    ensures
        st.escaping.subset_of(analyze_list(st, envs, cx, v, k).escaping),
    decreases v, k,
{
    if 0 < k <= v.len() {
        lemma_list_only_adds_escaping(st, envs, cx, v, k - 1);
        lemma_analysis_only_adds_escaping(analyze_list(st, envs, cx, v, k - 1), envs, cx, v[k - 1]);
    }
}

/// The analysis of bound values never takes a variable out of the escaping
/// set.
proof fn lemma_bound_only_adds_escaping(
    st: EscState,
    envs: Seq<Set<usize>>,
    cx: EscSettings,
    v: Vec<(String, AstNode)>,
    k: int,
)
    ensures
        st.escaping.subset_of(analyze_bound(st, envs, cx, v, k).escaping),
    decreases v, k,
{
    if 0 < k <= v.len() {
        lemma_bound_only_adds_escaping(st, envs, cx, v, k - 1);
        lemma_analysis_only_adds_escaping(analyze_bound(st, envs, cx, v, k - 1), envs, cx, v[k - 1].1);
    }
}

/// `analyze` of the values of the first `k` bindings of `v`, in order.
pub open spec fn analyze_bound(
    st: EscState,
    envs: Seq<Set<usize>>,
    cx: EscSettings,
    v: Vec<(String, AstNode)>,
    k: int,
) -> EscState
    decreases v, k,
{
    if k <= 0 || k > v.len() {
        st
    } else {
        analyze(analyze_bound(st, envs, cx, v, k - 1), envs, cx, v[k - 1].1)
    }
}

/// The errors the analysis of `e` reports, in order: each reference that
/// no scope binds, and each definition or recursive let met.
pub open spec fn analysis_errors(envs: Seq<Set<usize>>, e: AstNode) -> Seq<EscError>
    decreases e, 0int,
{
    match e {
        AstNode::Variable(n) => if bound(envs, var_index(n@)) {
            seq![]
        } else {
            seq![EscError::NotFound(var_index(n@))]
        },
        AstNode::Lambda { parameters, body, .. } => analysis_errors(envs.push(name_set(parameters@)), *body),
        AstNode::Let { bindings, body, .. } => {
            let inner = envs.push(binding_set(bindings@));
            errors_bound(inner, bindings, bindings.len() as int) + analysis_errors(inner, *body)
        },
        AstNode::Call { function, arguments, .. } => analysis_errors(envs, *function) + errors_list(
            envs,
            arguments,
            arguments.len() as int,
        ),
        AstNode::If { condition, then_branch, else_branch, .. } => analysis_errors(envs, *condition)
            + analysis_errors(envs, *then_branch) + analysis_errors(envs, *else_branch),
        AstNode::TrustTier { expression, .. } => analysis_errors(envs, *expression),
        AstNode::MacroDefinition { body, .. } => analysis_errors(envs, *body),
        AstNode::MacroExpansion { arguments, .. } => errors_list(envs, arguments, arguments.len() as int),
        AstNode::FfiCall { arguments, .. } => errors_list(envs, arguments, arguments.len() as int),
        AstNode::List { elements, .. } => errors_list(envs, elements, elements.len() as int),
        AstNode::Cons { car, cdr, .. } => analysis_errors(envs, *car) + analysis_errors(envs, *cdr),
        AstNode::Define { .. } => seq![EscError::Unsupported],
        AstNode::Letrec { .. } => seq![EscError::Unsupported],
        _ => seq![],
    }
}

/// `analysis_errors` of the first `k` trees of `v`.
pub open spec fn errors_list(envs: Seq<Set<usize>>, v: Vec<AstNode>, k: int) -> Seq<EscError>
    decreases v, k,
{
    if k <= 0 || k > v.len() {
        seq![]
    } else {
        errors_list(envs, v, k - 1) + analysis_errors(envs, v[k - 1])
    }
}

/// `analysis_errors` of the values of the first `k` bindings of `v`.
pub open spec fn errors_bound(envs: Seq<Set<usize>>, v: Vec<(String, AstNode)>, k: int) -> Seq<
    EscError,
>
    decreases v, k,
{
    if k <= 0 || k > v.len() {
        seq![]
    } else {
        errors_bound(envs, v, k - 1) + analysis_errors(envs, v[k - 1].1)
    }
}

/// Appending errors twice appends both.
proof fn lemma_errors_extended_trans(
    a: Seq<CompilationError>,
    b: Seq<CompilationError>,
    c: Seq<CompilationError>,
    m1: Seq<EscError>,
    m2: Seq<EscError>,
)
    requires
        errors_extended(a, b, m1),
        errors_extended(b, c, m2),
    ensures
        errors_extended(a, c, m1 + m2),
{
    assert forall|j: int| 0 <= j < (m1 + m2).len() implies error_matches(
        #[trigger] c[a.len() + j],
        (m1 + m2)[j],
    ) by {
        if j < m1.len() {
            assert(c[a.len() + j] == b[a.len() + j]);
        } else {
            assert(c[a.len() + j] == c[b.len() + (j - m1.len())]);
        }
    }
}

/// Nothing appended.
proof fn lemma_errors_extended_refl(a: Seq<CompilationError>)
    ensures
        errors_extended(a, a, seq![]),
{
}

impl EscapeAnalysis {
    /// What the analysis has found so far.
    pub open spec fn esc_state(self) -> EscState {
        EscState { escaping: self.escaping_vars@, infos: self.infos() }
    }

    /// The scopes in force, as sets.
    pub open spec fn envs(self) -> Seq<Set<usize>> {
        env_view(self.variable_environments@)
    }

    /// Analyses `expr` (see `analyze`), reporting errors to `context` (see
    /// `analysis_errors`). The scopes are left as they were.
    pub fn analyze_expression(&mut self, expr: &AstNode, context: &mut AnalysisContext)
        ensures
            final(self).variable_environments@ == old(self).variable_environments@,
            final(self).current_function == old(self).current_function,
            final(self).esc_state() == analyze(
                old(self).esc_state(),
                old(self).envs(),
                old(context).settings(),
                *expr,
            ),
            final(context).settings() == old(context).settings(),
            errors_extended(
                old(context).errors@,
                final(context).errors@,
                analysis_errors(old(self).envs(), *expr),
            ),
            old(self).escaping_vars@.subset_of(final(self).escaping_vars@),
        decreases 3 * tree_size(*expr) + 2,
    {
        proof {
            lemma_analysis_only_adds_escaping(old(self).esc_state(), old(self).envs(), old(context).settings(), *expr);
        }
        match expr {
            AstNode::Variable(var) => {
                let v = self.get_variable_index(var.as_str());
                self.analyze_variable(v, context);
            },
            AstNode::Lambda { parameters, body, .. } => {
                self.analyze_lambda(parameters, body, context);
            },
            AstNode::Let { bindings, body, .. } => {
                self.analyze_let(bindings, body, context);
            },
            AstNode::Call { function, arguments, .. } => {
                self.analyze_expression(function, context);
                let ghost e1 = context.errors@;
                self.analyze_sequence(arguments, context);
                proof {
                    lemma_errors_extended_trans(
                        old(context).errors@,
                        e1,
                        context.errors@,
                        analysis_errors(old(self).envs(), **function),
                        errors_list(old(self).envs(), *arguments, arguments@.len() as int),
                    );
                }
            },
            AstNode::If { condition, then_branch, else_branch, .. } => {
                self.analyze_expression(condition, context);
                let ghost e1 = context.errors@;
                self.analyze_expression(then_branch, context);
                let ghost e2 = context.errors@;
                self.analyze_expression(else_branch, context);
                proof {
                    let envs = old(self).envs();
                    lemma_errors_extended_trans(
                        old(context).errors@,
                        e1,
                        e2,
                        analysis_errors(envs, **condition),
                        analysis_errors(envs, **then_branch),
                    );
                    lemma_errors_extended_trans(
                        old(context).errors@,
                        e2,
                        context.errors@,
                        analysis_errors(envs, **condition) + analysis_errors(envs, **then_branch),
                        analysis_errors(envs, **else_branch),
                    );
                }
            },
            _ => {
                self.analyze_default(expr, context);
            },
        }
    }

    /// Looks a variable number up in the scopes: a bound one escapes when
    /// the context is captured; an unbound one is reported.
    fn analyze_variable(&mut self, var: usize, context: &mut AnalysisContext)
        ensures
            final(self).variable_environments@ == old(self).variable_environments@,
            final(self).current_function == old(self).current_function,
            final(self).function_info@ == old(self).function_info@,
            final(self).escaping_vars@ == if bound(old(self).envs(), var)
                && old(context).is_captured {
                old(self).escaping_vars@.insert(var)
            } else {
                old(self).escaping_vars@
            },
            final(context).settings() == old(context).settings(),
            errors_extended(
                old(context).errors@,
                final(context).errors@,
                if bound(old(self).envs(), var) {
                    seq![]
                } else {
                    seq![EscError::NotFound(var)]
                },
            ),
    {
        let ghost envs = self.envs();
        let mut i: usize = self.variable_environments.len();
        while i > 0
            invariant
                i <= self.variable_environments@.len(),
                envs == self.envs(),
                *self == *old(self),
                *context == *old(context),
                forall|j: int| i <= j < envs.len() ==> !envs[j].contains(var),
            decreases i,
        {
            i = i - 1;
            if self.variable_environments[i].contains(&var) {
                assert(envs[i as int].contains(var));
                if context.is_captured() {
                    self.escaping_vars.insert(var);
                }
                return;
            }
        }
        let mut message = to_owned_string("Variable not found: ");
        push_decimal(&mut message, var as u64);
        context.report_error(CompilationError::ParseError { message, location: SourceLocation::default() });
    }

    /// Analyses a lambda: its body with the parameters in scope, then marks
    /// the body's free references as escaping and records the function.
    fn analyze_lambda(&mut self, parameters: &Vec<String>, body: &AstNode, context: &mut AnalysisContext)
        ensures
            final(self).variable_environments@ == old(self).variable_environments@,
            final(self).current_function == old(self).current_function,
            final(self).esc_state() == lambda_finish(
                analyze(
                    old(self).esc_state(),
                    old(self).envs().push(name_set(parameters@)),
                    old(context).settings(),
                    *body,
                ),
                free_refs(seq![name_set(parameters@)], *body),
                old(context).settings(),
                parameters@.len() as usize,
            ),
            final(context).settings() == old(context).settings(),
            errors_extended(
                old(context).errors@,
                final(context).errors@,
                analysis_errors(old(self).envs().push(name_set(parameters@)), *body),
            ),
        decreases 3 * tree_size(*body) + 3,
    {
        let param_vars = names_to_set(parameters);
        proof {
            lemma_env_push(self.variable_environments@, Seq::empty(), param_vars);
            assert(env_view(self.variable_environments@.push(param_vars)) =~= self.envs().push(
                param_vars@,
            ));
        }
        self.variable_environments.push(param_vars);
        self.analyze_expression(body, context);
        let _ = self.variable_environments.pop();
        assert(self.variable_environments@ =~= old(self).variable_environments@);
        let mut own_scope = EscapeAnalysis::new();
        own_scope.variable_environments.push(names_to_set(parameters));
        assert(env_view(own_scope.variable_environments@) =~= seq![name_set(parameters@)]);
        let free_vars = own_scope.find_free_variables(body);
        let ghost st1 = self.esc_state();
        let mut k: usize = 0;
        while k < free_vars.len()
            invariant
                k <= free_vars@.len(),
                self.variable_environments@ == old(self).variable_environments@,
                self.current_function == old(self).current_function,
                self.infos() == st1.infos,
                self.escaping_vars@ == st1.escaping.union(
                    Set::new(|x: usize| exists|j: int| 0 <= j < k && free_vars@[j] == x),
                ),
            decreases free_vars@.len() - k,
        {
            let x = free_vars[k];
            self.escaping_vars.insert(x);
            k = k + 1;
            assert(self.escaping_vars@ =~= st1.escaping.union(
                Set::new(|y: usize| exists|j: int| 0 <= j < k && free_vars@[j] == y),
            )) by {
                assert(free_vars@[k - 1] == x);
            }
        }
        assert(self.escaping_vars@ =~= st1.escaping.union(free_vars@.to_set()));
        let ghost esc = self.escaping_vars@;
        if let Some(func_id) = &context.current_function {
            let mut escape_info: HashMap<usize, EscapeStatus> = HashMap::new();
            let mut var: usize = 0;
            while var < context.max_variable
                invariant
                    var <= context.max_variable,
                    self.escaping_vars@ == esc,
                    escape_info@ == Map::new(
                        |j: usize| j < var,
                        |j: usize|
                            if esc.contains(j) {
                                EscapeStatus::Escaping
                            } else {
                                EscapeStatus::NonEscaping
                            },
                    ),
                decreases context.max_variable - var,
            {
                let status = if self.escaping_vars.contains(&var) {
                    EscapeStatus::Escaping
                } else {
                    EscapeStatus::NonEscaping
                };
                escape_info.insert(var, status);
                var = var + 1;
                assert(escape_info@ =~= Map::new(
                    |j: usize| j < var,
                    |j: usize|
                        if esc.contains(j) {
                            EscapeStatus::Escaping
                        } else {
                            EscapeStatus::NonEscaping
                        },
                ));
            }
            assert(escape_info@ =~= status_map(esc, context.max_variable));
            let info = FunctionInfo {
                local_count: parameters.len(),
                escape_info,
                free_variables: free_vars,
            };
            let ghost before = self.function_info@;
            self.function_info.insert(func_id.0, info);
            assert(self.infos() =~= st1.infos.insert(func_id.0, info.info_view()));
        }
    }
}

impl EscapeAnalysis {
    /// Analyses the values and the body of a let with its names in scope.
    fn analyze_let(
        &mut self,
        bindings: &Vec<(String, AstNode)>,
        body: &AstNode,
        context: &mut AnalysisContext,
    )
        ensures
            final(self).variable_environments@ == old(self).variable_environments@,
            final(self).current_function == old(self).current_function,
            final(self).esc_state() == analyze(
                analyze_bound(
                    old(self).esc_state(),
                    old(self).envs().push(binding_set(bindings@)),
                    old(context).settings(),
                    *bindings,
                    bindings@.len() as int,
                ),
                old(self).envs().push(binding_set(bindings@)),
                old(context).settings(),
                *body,
            ),
            final(context).settings() == old(context).settings(),
            errors_extended(
                old(context).errors@,
                final(context).errors@,
                errors_bound(
                    old(self).envs().push(binding_set(bindings@)),
                    *bindings,
                    bindings@.len() as int,
                ) + analysis_errors(old(self).envs().push(binding_set(bindings@)), *body),
            ),
        decreases 3 * (bound_trees_size(*bindings, bindings@.len() as int) + tree_size(*body)) + 3,
    {
        let binding_vars = bindings_to_set(bindings);
        let ghost inner = self.envs().push(binding_set(bindings@));
        proof {
            assert(env_view(self.variable_environments@.push(binding_vars)) =~= inner);
        }
        self.variable_environments.push(binding_vars);
        let ghost st0 = self.esc_state();
        let mut i: usize = 0;
        while i < bindings.len()
            invariant
                i <= bindings@.len(),
                self.variable_environments@ == old(self).variable_environments@.push(binding_vars),
                self.envs() == inner,
                self.current_function == old(self).current_function,
                context.settings() == old(context).settings(),
                self.esc_state() == analyze_bound(st0, inner, old(context).settings(), *bindings, i as int),
                errors_extended(
                    old(context).errors@,
                    context.errors@,
                    errors_bound(inner, *bindings, i as int),
                ),
            decreases bindings@.len() - i,
        {
            proof {
                lemma_bound_trees_size(*bindings, i as int, bindings@.len() as int);
            }
            let ghost e0 = context.errors@;
            self.analyze_expression(&bindings[i].1, context);
            proof {
                lemma_errors_extended_trans(
                    old(context).errors@,
                    e0,
                    context.errors@,
                    errors_bound(inner, *bindings, i as int),
                    analysis_errors(inner, bindings@[i as int].1),
                );
            }
            i = i + 1;
        }
        let ghost e1 = context.errors@;
        self.analyze_expression(body, context);
        proof {
            lemma_errors_extended_trans(
                old(context).errors@,
                e1,
                context.errors@,
                errors_bound(inner, *bindings, bindings@.len() as int),
                analysis_errors(inner, *body),
            );
        }
        let _ = self.variable_environments.pop();
        assert(self.variable_environments@ =~= old(self).variable_environments@);
    }

    /// Analyses the trees of `nodes` in order.
    fn analyze_sequence(&mut self, nodes: &Vec<AstNode>, context: &mut AnalysisContext)
        ensures
            final(self).variable_environments@ == old(self).variable_environments@,
            final(self).current_function == old(self).current_function,
            final(self).esc_state() == analyze_list(
                old(self).esc_state(),
                old(self).envs(),
                old(context).settings(),
                *nodes,
                nodes@.len() as int,
            ),
            final(context).settings() == old(context).settings(),
            errors_extended(
                old(context).errors@,
                final(context).errors@,
                errors_list(old(self).envs(), *nodes, nodes@.len() as int),
            ),
        decreases 3 * trees_size(*nodes, nodes@.len() as int) + 3,
    {
        let ghost envs = self.envs();
        let mut i: usize = 0;
        while i < nodes.len()
            invariant
                i <= nodes@.len(),
                self.variable_environments@ == old(self).variable_environments@,
                self.envs() == envs,
                self.current_function == old(self).current_function,
                context.settings() == old(context).settings(),
                self.esc_state() == analyze_list(
                    old(self).esc_state(),
                    envs,
                    old(context).settings(),
                    *nodes,
                    i as int,
                ),
                errors_extended(old(context).errors@, context.errors@, errors_list(envs, *nodes, i as int)),
            decreases nodes@.len() - i,
        {
            proof {
                lemma_trees_size(*nodes, i as int, nodes@.len() as int);
            }
            let ghost e0 = context.errors@;
            self.analyze_expression(&nodes[i], context);
            proof {
                lemma_errors_extended_trans(
                    old(context).errors@,
                    e0,
                    context.errors@,
                    errors_list(envs, *nodes, i as int),
                    analysis_errors(envs, nodes@[i as int]),
                );
            }
            i = i + 1;
        }
    }

    /// The nodes `analyze_expression` does not handle itself: literals,
    /// symbols, capability checks and signatures contribute nothing; trust
    /// annotations, macro definitions and uses, foreign calls, lists and
    /// pairs are searched through; anything else is reported.
    fn analyze_default(&mut self, expr: &AstNode, context: &mut AnalysisContext)
        requires
            !(expr is Variable || expr is Lambda || expr is Let || expr is Call || expr is If),
        ensures
            final(self).variable_environments@ == old(self).variable_environments@,
            final(self).current_function == old(self).current_function,
            final(self).esc_state() == analyze(
                old(self).esc_state(),
                old(self).envs(),
                old(context).settings(),
                *expr,
            ),
            final(context).settings() == old(context).settings(),
            errors_extended(
                old(context).errors@,
                final(context).errors@,
                analysis_errors(old(self).envs(), *expr),
            ),
        decreases 3 * tree_size(*expr) + 1,
    {
        match expr {
            AstNode::Literal(_) | AstNode::Symbol(_) | AstNode::RequireCapability { .. }
            | AstNode::HasCapability { .. } | AstNode::TypeSignature { .. } => {
                proof {
                    lemma_errors_extended_refl(context.errors@);
                }
            },
            AstNode::TrustTier { expression, .. } => {
                self.analyze_expression(expression, context);
            },
            AstNode::MacroDefinition { body, .. } => {
                self.analyze_expression(body, context);
            },
            AstNode::MacroExpansion { arguments, .. } => {
                self.analyze_sequence(arguments, context);
            },
            AstNode::FfiCall { arguments, .. } => {
                self.analyze_sequence(arguments, context);
            },
            AstNode::List { elements, .. } => {
                self.analyze_sequence(elements, context);
            },
            AstNode::Cons { car, cdr, .. } => {
                self.analyze_expression(car, context);
                let ghost e1 = context.errors@;
                self.analyze_expression(cdr, context);
                proof {
                    lemma_errors_extended_trans(
                        old(context).errors@,
                        e1,
                        context.errors@,
                        analysis_errors(old(self).envs(), **car),
                        analysis_errors(old(self).envs(), **cdr),
                    );
                }
            },
            _ => {
                let text = debug_node(expr);
                let message = concat2("Unsupported expression type in escape analysis: ", text.as_str());
                proof {
                    reveal_strlit("Unsupported expression type in escape analysis: ");
                    assert(message@.subrange(0, unsupported_prefix().len() as int) =~= unsupported_prefix());
                }
                context.report_error(CompilationError::ParseError { message, location: SourceLocation::default() });
            },
        }
    }
}

} // verus!
