//! The bridges to the two execution worlds: the physics world, which runs
//! bytecode under capabilities, and the core world, which checks
//! lambda-calculus terms.
use vstd::prelude::*;
use crate::ast::{AstNode, debug_node, tree_size, trees_size, lemma_trees_size};
use crate::error::{CompilationError, SourceLocation, unknown_location};
use crate::macro_ffi::{granted_name_list, granted_names};
use crate::physics::Value;
use crate::text::concat2;
use crate::trust_tier::TrustTier;

verus! {

/// What the physics world is told about a program's trust.
pub struct PhysicsIntegrationContext {
    /// The trust tier.
    pub trust_tier: TrustTier,
    /// The names of the capabilities the tier grants.
    pub capabilities: Vec<String>,
}

/// The context for code of tier `trust_tier`: the names of the
/// capabilities it grants, in declaration order.
pub fn create_physics_integration_context(trust_tier: TrustTier) -> (r: PhysicsIntegrationContext)
    ensures
        r.trust_tier == trust_tier,
        r.capabilities@.map_values(|s: String| s@) == granted_names(trust_tier),
{
    PhysicsIntegrationContext { trust_tier, capabilities: granted_name_list(trust_tier) }
}

/// Hands a tree to the physics world; no bytecode is produced yet.
pub fn integrate_with_physics(ast: &AstNode, context: &PhysicsIntegrationContext) -> (r: Result<
    Vec<u8>,
    CompilationError,
>)
    ensures
        r matches Ok(v) && v@.len() == 0,
{
    Ok(Vec::new())
}

/// Runs bytecode in the physics world; every program yields nil for now.
pub fn execute_physics_bytecode(bytecode: Vec<u8>, context: &PhysicsIntegrationContext) -> (r: Result<
    Value,
    CompilationError,
>)
    ensures
        r == Ok::<Value, CompilationError>(Value::Nil),
{
    Ok(Value::Nil)
}

/// A lambda-calculus term of the core world, with de Bruijn variables.
#[derive(Debug, PartialEq, Eq)]
pub enum CoreExpr {
    /// A variable by its de Bruijn index.
    Var(usize),
    /// An abstraction.
    Lam(Box<CoreExpr>),
    /// An application.
    App(Box<CoreExpr>, Box<CoreExpr>),
    /// A natural number.
    Nat(u64),
    /// A pair.
    Pair(Box<CoreExpr>, Box<CoreExpr>),
}

/// `f` applied to each of `args` in turn: `((f a1) a2) ...`.
pub open spec fn apply_all(f: CoreExpr, args: Seq<CoreExpr>) -> CoreExpr
    decreases args.len(),
{
    if args.len() == 0 {
        f
    } else {
        CoreExpr::App(Box::new(apply_all(f, args.drop_last())), Box::new(args.last()))
    }
}

/// `n` abstractions around `body`.
pub open spec fn lambdas(body: CoreExpr, n: nat) -> CoreExpr
    decreases n,
{
    if n == 0 {
        body
    } else {
        CoreExpr::Lam(Box::new(lambdas(body, (n - 1) as nat)))
    }
}

/// The core term of a tree, or `None` for a tree the core world cannot
/// take. Literals and variables are placeholders (variable 0); calls are
/// applications of the function to the arguments in order; a lambda is one
/// abstraction per parameter around its body; other nodes are refused.
pub open spec fn core_of(n: AstNode) -> Option<CoreExpr>
    decreases n, 0int,
{
    match n {
        AstNode::Literal(_) => Some(CoreExpr::Var(0)),
        AstNode::Variable(_) => Some(CoreExpr::Var(0)),
        AstNode::Call { function, arguments, .. } => match core_of(*function) {
            None => None,
            Some(f) => match core_of_all(arguments, arguments.len() as int) {
                None => None,
                Some(a) => Some(apply_all(f, a)),
            },
        },
        AstNode::Lambda { parameters, body, .. } => match core_of(*body) {
            None => None,
            Some(b) => Some(lambdas(b, parameters.len() as nat)),
        },
        _ => None,
    }
}

/// The core terms of the first `k` trees of `v`, if all have one.
pub open spec fn core_of_all(v: Vec<AstNode>, k: int) -> Option<Seq<CoreExpr>>
    decreases v, k,
{
    if k <= 0 || k > v.len() {
        Some(seq![])
    } else {
        match core_of_all(v, k - 1) {
            None => None,
            Some(s) => match core_of(v[k - 1]) {
                None => None,
                Some(x) => Some(s.push(x)),
            },
        }
    }
}

/// A refused tree is reported as an internal error whose message starts so
/// (the tree's `Debug` text follows).
pub open spec fn core_refusal_prefix() -> Seq<char> {
    "Unsupported AST node for Core-World compilation: "@
}

/// Generates proofs for core terms (the core world's proof kernel is not
/// part of this library, so it has no operation here).
pub struct ProofGenerator;

/// Translates trees to core terms.
pub struct CoreWorldCompiler {
    /// The current source location.
    pub location: SourceLocation,
}

impl CoreWorldCompiler {
    /// A compiler at the unknown location.
    pub fn new() -> (r: Self)
        ensures
            r.location == unknown_location(),
    {
        CoreWorldCompiler { location: SourceLocation::default() }
    }

    /// The core term of `ast` (see `core_of`).
    pub fn compile_to_core(&self, ast: &AstNode) -> (r: Result<CoreExpr, CompilationError>)
        ensures
            core_of(*ast) matches Some(e) ==> r == Ok::<CoreExpr, CompilationError>(e),
            core_of(*ast) is None ==> (r matches Err(CompilationError::InternalError(m))
                && core_refusal_prefix().is_prefix_of(m@)),
        decreases 2 * tree_size(*ast) + 1,
    {
        match ast {
            AstNode::Literal(_) => Ok(CoreExpr::Var(0)),
            AstNode::Variable(_) => Ok(CoreExpr::Var(0)),
            AstNode::Call { function, arguments, .. } => self.compile_call(function, arguments),
            AstNode::Lambda { parameters, body, .. } => self.compile_lambda(parameters, body),
            _ => {
                let text = debug_node(ast);
                let m = concat2("Unsupported AST node for Core-World compilation: ", text.as_str());
                proof {
                    reveal_strlit("Unsupported AST node for Core-World compilation: ");
                    assert(m@.subrange(0, core_refusal_prefix().len() as int) =~= core_refusal_prefix());
                }
                Err(CompilationError::InternalError(m))
            },
        }
    }

    /// The application of the function's term to the arguments' terms.
    #[verifier::loop_isolation(false)]
    fn compile_call(&self, function: &AstNode, arguments: &Vec<AstNode>) -> (r: Result<CoreExpr, CompilationError>)
        ensures
            ({
                let c = match core_of(*function) {
                    None => None,
                    Some(f) => match core_of_all(*arguments, arguments@.len() as int) {
                        None => None,
                        Some(a) => Some(apply_all(f, a)),
                    },
                };
                &&& c matches Some(e) ==> r == Ok::<CoreExpr, CompilationError>(e)
                &&& c is None ==> (r matches Err(CompilationError::InternalError(m))
                    && core_refusal_prefix().is_prefix_of(m@))
            }),
        decreases 2 * (tree_size(*function) + trees_size(*arguments, arguments@.len() as int)) + 2,
    {
        let mut result = match self.compile_to_core(function) {
            Ok(e) => e,
            Err(e) => {
                return Err(e);
            },
        };
        let ghost f = result;
        let ghost mut done: Seq<CoreExpr> = seq![];
        let mut i: usize = 0;
        while i < arguments.len()
            invariant
                i <= arguments@.len(),
                core_of(*function) == Some(f),
                core_of_all(*arguments, i as int) == Some(done),
                result == apply_all(f, done),
            decreases arguments@.len() - i,
        {
            proof {
                lemma_trees_size(*arguments, i as int, arguments@.len() as int);
            }
            let a = match self.compile_to_core(&arguments[i]) {
                Ok(e) => e,
                Err(e) => {
                    proof {
                        lemma_core_of_all_none(*arguments, i as int + 1, arguments@.len() as int);
                    }
                    return Err(e);
                },
            };
            proof {
                done = done.push(a);
            }
            result = CoreExpr::App(Box::new(result), Box::new(a));
            assert(done.drop_last() =~= core_of_all(*arguments, i as int).unwrap());
            i = i + 1;
        }
        Ok(result)
    }

    /// One abstraction per parameter around the body's term.
    fn compile_lambda(&self, parameters: &Vec<String>, body: &AstNode) -> (r: Result<CoreExpr, CompilationError>)
        ensures
            core_of(*body) matches Some(b) ==> r == Ok::<CoreExpr, CompilationError>(
                lambdas(b, parameters@.len() as nat),
            ),
            core_of(*body) is None ==> (r matches Err(CompilationError::InternalError(m))
                && core_refusal_prefix().is_prefix_of(m@)),
        decreases 2 * tree_size(*body) + 2,
    {
        let mut result = match self.compile_to_core(body) {
            Ok(e) => e,
            Err(e) => {
                return Err(e);
            },
        };
        let ghost b = result;
        let mut k: usize = 0;
        while k < parameters.len()
            invariant
                k <= parameters@.len(),
                result == lambdas(b, k as nat),
            decreases parameters@.len() - k,
        {
            result = CoreExpr::Lam(Box::new(result));
            k = k + 1;
        }
        Ok(result)
    }
}

/// Once the terms of a prefix of the arguments are missing, so are those
/// of every longer prefix.
proof fn lemma_core_of_all_none(v: Vec<AstNode>, i: int, k: int)
    requires
        0 <= i <= k <= v.len(),
        core_of_all(v, i) is None,
    ensures
        core_of_all(v, k) is None,
    decreases k - i,
{
    if k > i {
        lemma_core_of_all_none(v, i, k - 1);
    }
}

} // verus!
