//! The compilation pipeline: source text is parsed, its macros expanded,
//! its capabilities checked against the trust tier, and then it is compiled
//! to a Core-World term with its proof (formal and verified tiers) or to
//! Physics-World bytecode with capability checks in front (empirical and
//! experimental tiers).
use vstd::prelude::*;
use crate::ast::AstNode;
use crate::ast_view::node_view;
use crate::bytecode_generation::{bytecode_of, compile_ast_to_bytecode, is_frame_overflow};
use crate::capability_analyzer::{analyze_capabilities, required_capabilities, validate_tier_capabilities};
use crate::capability_checking::{insert_capability_checks, required_checks, CapabilityCheck, CheckType};
use crate::core_compilation::{compile_core_expr_to_bytecode, core_code, core_term, is_core_error};
use crate::core_proofs::{compile_ast_to_core_expr_with_proofs, core_proof, kernel_lookup, kernel_proof, Proof};
use crate::error::{CompilationError, SourceLocation, SourceMap};
use crate::integration::CoreExpr;
use crate::macro_system::{expand_all_spec, expand_macros, expansion_matches, ExpansionState, MacroEnv};
use crate::parser::{parse, parse_outcome, source_locations};
use crate::physics::{Capability, OpCode, Value};
use crate::trust_tier::{TrustTier, granted_seq, tier_grants};
use crate::error::unknown_location;

verus! {

/// The outcome of empirical validation.
pub enum EmpiricalResult {
    /// Tests passed.
    Passed {
        /// Number of tests run.
        tests_run: usize,
        /// Code coverage, as a decimal percentage.
        coverage: String,
    },
    /// Tests failed.
    Failed {
        /// Why.
        reason: String,
        /// The failing case.
        failing_case: String,
    },
    /// No empirical validation was done.
    NotApplicable,
}

/// What compiling a program gives.
pub struct CompilationResult {
    /// The bytecode.
    pub bytecode: Vec<OpCode>,
    /// Its constants.
    pub constants: Vec<Value>,
    /// The step limit it runs under.
    pub step_limit: u64,
    /// The memory limit it runs under.
    pub memory_limit: usize,
    /// The proof of its core term, if any.
    pub core_proof: Option<Proof>,
    /// Its core term, for the formal and verified tiers.
    pub core_expr: Option<CoreExpr>,
    /// The capabilities it requires.
    pub required_capabilities: Vec<Capability>,
    /// The capabilities its tier grants.
    pub granted_capabilities: Vec<Capability>,
    /// The outcome of empirical validation.
    pub empirical_check: EmpiricalResult,
    /// Whether it runs in a sandbox.
    pub sandboxed: bool,
    /// Its source map.
    pub source_map: SourceMap,
    /// The capability checks inserted, for audit.
    pub capability_audit: Vec<CapabilityCheck>,
}

/// The fields every compilation result shares: the limits, the tier's
/// capabilities, no empirical validation, and an empty source map.
pub open spec fn common_fields(res: CompilationResult, tier: TrustTier, step: u64, mem: usize) -> bool {
    &&& res.step_limit == step
    &&& res.memory_limit == mem
    &&& res.granted_capabilities@ == granted_seq(tier)
    &&& res.empirical_check is NotApplicable
    &&& res.source_map.bytecode_to_source@.len() == 0
    &&& res.source_map.source_to_bytecode@.len() == 0
}

/// What compiling the expanded tree `e` to a core term gives: the term, its
/// proof (the kernel's proof of the term where the front end builds none),
/// the term's stack code, and no required capability, audit or sandbox.
pub open spec fn core_result(
    e: AstNode,
    tier: TrustTier,
    step: u64,
    mem: usize,
    floats: Seq<(String, u64)>,
    kernel: Seq<(CoreExpr, Option<Proof>)>,
    r: Result<CompilationResult, CompilationError>,
) -> bool {
    match core_term(e, floats) {
        Err(m) => r matches Err(err) && is_core_error(err, m),
        Ok(t) => r matches Ok(res) && common_fields(res, tier, step, mem) && res.core_expr == Some(t)
            && res.core_proof == (match core_proof(e, floats, kernel) {
            Some(p) => Some(p),
            None => kernel_proof(kernel, t),
        }) && res.bytecode@ == core_code(t) && res.constants@.len() == 0
            && res.required_capabilities@.len() == 0 && !res.sandboxed && res.capability_audit@.len()
            == 0,
    }
}

/// What compiling the expanded tree `e` to bytecode gives: a capability
/// check for each required check, then the tree's bytecode; its constants;
/// the capabilities it requires; the checks as the audit; a sandbox for the
/// experimental tier.
pub open spec fn physics_result(
    e: AstNode,
    tier: TrustTier,
    step: u64,
    mem: usize,
    r: Result<CompilationResult, CompilationError>,
) -> bool {
    match bytecode_of(e) {
        (None, _) => r matches Err(err) && is_frame_overflow(err),
        (Some(c), s) => r matches Ok(res) && common_fields(res, tier, step, mem) && ({
            let checks = required_checks(e);
            &&& res.bytecode@ == Seq::new(checks.len(), |i: int| OpCode::HasCap(0)) + c
            &&& res.constants@ == s.consts
            &&& res.capability_audit@ == checks.map_values(
                |x: (Capability, SourceLocation)|
                    CapabilityCheck { location: x.1, capability: x.0, check_type: CheckType::Runtime },
            )
        }) && res.required_capabilities@.to_set() == required_capabilities(e)
            && res.required_capabilities@.no_duplicates() && res.sandboxed == (tier
            == TrustTier::Experimental) && res.core_expr is None && res.core_proof is None,
    }
}

/// What compiling the expanded tree `e` gives: a capability error where it
/// requires a capability the tier does not grant, else the core term and
/// its proof for the formal and verified tiers, and bytecode for the
/// others.
pub open spec fn expanded_result(
    e: AstNode,
    tier: TrustTier,
    step: u64,
    mem: usize,
    floats: Seq<(String, u64)>,
    kernel: Seq<(CoreExpr, Option<Proof>)>,
    r: Result<CompilationResult, CompilationError>,
) -> bool {
    if exists|c: Capability| required_capabilities(e).contains(c) && !tier_grants(tier, c) {
        r matches Err(CompilationError::CapabilityError(v)) && required_capabilities(e).contains(v.required)
            && !tier_grants(tier, v.required) && v.tier == tier && v.location == unknown_location()
    } else if tier == TrustTier::Formal || tier == TrustTier::Verified {
        core_result(e, tier, step, mem, floats, kernel, r)
    } else {
        physics_result(e, tier, step, mem, r)
    }
}

/// The macro environment a program of `tier` is expanded in.
pub open spec fn program_env(tier: TrustTier) -> MacroEnv {
    MacroEnv { macros: seq![], caller: granted_seq(tier).to_set(), tier }
}

/// The expansion state a program of `tier` starts from.
pub open spec fn program_state(tier: TrustTier) -> ExpansionState {
    ExpansionState { expansion: granted_seq(tier).to_set(), location: unknown_location() }
}

/// Compiles `source` for `tier`: parses it (its errors are passed on),
/// expands its macros (their errors are passed on), checks that the tier
/// grants every capability it requires (else a capability error naming one
/// it does not grant), and then translates it to a Core-World term with its
/// proof for the formal and verified tiers, or lowers it to bytecode with
/// capability checks in front for the empirical and experimental ones. The
/// core world's kernel is given as `kernel` and the values of float
/// literals as `floats` (see `compile_ast_to_core_expr_with_proofs`); a term
/// whose translation builds no proof gets the kernel's proof of it.
pub fn compile(
    source: &str,
    tier: TrustTier,
    default_step_limit: u64,
    default_mem_limit: usize,
    floats: &Vec<(String, u64)>,
    kernel: &Vec<(CoreExpr, Option<Proof>)>,
) -> (r: Result<CompilationResult, CompilationError>)
    requires
        source@.len() < usize::MAX,
    ensures
        exists|p: Result<AstNode, CompilationError>|
            #![trigger parse_outcome(source@, 0, 0, source_locations(source@), p)]
            parse_outcome(source@, 0, 0, source_locations(source@), p) && match p {
                Err(e) => r == Err::<CompilationResult, CompilationError>(e),
                Ok(t) => exists|x: Result<AstNode, CompilationError>|
                    #![trigger expansion_matches(x, expand_all_spec(program_env(tier), program_state(tier), node_view(t)).1, tier)]
                    expansion_matches(
                        x,
                        expand_all_spec(program_env(tier), program_state(tier), node_view(t)).1,
                        tier,
                    ) && match x {
                        Err(e) => r == Err::<CompilationResult, CompilationError>(e),
                        Ok(e) => expanded_result(e, tier, default_step_limit, default_mem_limit, floats@, kernel@, r),
                    },
            },
{
    let parsed = parse(source);
    assert(parse_outcome(source@, 0, 0, source_locations(source@), parsed));
    let ast = match parsed {
        Ok(t) => t,
        Err(e) => {
            return Err(e);
        },
    };
    let ghost t = ast;
    let expanded_r = expand_macros(ast, tier);
    assert(expansion_matches(expanded_r, expand_all_spec(program_env(tier), program_state(tier), node_view(t)).1, tier));
    let expanded = match expanded_r {
        Ok(e) => e,
        Err(e) => {
            return Err(e);
        },
    };
    let r = compile_expanded(expanded, tier, default_step_limit, default_mem_limit, floats, kernel);
    r
}

/// Compiles an expanded tree (see `expanded_result`).
fn compile_expanded(
    expanded: AstNode,
    tier: TrustTier,
    default_step_limit: u64,
    default_mem_limit: usize,
    floats: &Vec<(String, u64)>,
    kernel: &Vec<(CoreExpr, Option<Proof>)>,
) -> (r: Result<CompilationResult, CompilationError>)
    ensures
        expanded_result(expanded, tier, default_step_limit, default_mem_limit, floats@, kernel@, r),
{
    let required_caps = match analyze_capabilities(&expanded) {
        Ok(v) => v,
        Err(e) => {
            return Err(e);
        },
    };
    match validate_tier_capabilities(tier, required_caps.as_slice()) {
        Ok(()) => {
            assert forall|c: Capability| required_capabilities(expanded).contains(c) implies tier_grants(tier, c) by {
                assert(required_caps@.to_set().contains(c));
            }
        },
        Err(e) => {
            proof {
                let i = choose|i: int|
                    0 <= i < required_caps@.len() && !tier_grants(tier, required_caps@[i]) && (forall|j: int|
                        0 <= j < i ==> tier_grants(tier, required_caps@[j])) && (e matches CompilationError::CapabilityError(v)
                        && v.required == required_caps@[i] && v.tier == tier && v.location == unknown_location());
                assert(required_caps@.to_set().contains(required_caps@[i]));
            }
            return Err(e);
        },
    }
    if tier == TrustTier::Formal || tier == TrustTier::Verified {
        compile_to_core_and_verify(&expanded, tier, default_step_limit, default_mem_limit, floats, kernel)
    } else {
        compile_to_physics_with_checks(&expanded, tier, default_step_limit, default_mem_limit)
    }
}

/// Compiles a tree to a core term with its proof (see `core_result`).
fn compile_to_core_and_verify(
    ast: &AstNode,
    tier: TrustTier,
    step_limit: u64,
    mem_limit: usize,
    floats: &Vec<(String, u64)>,
    kernel: &Vec<(CoreExpr, Option<Proof>)>,
) -> (r: Result<CompilationResult, CompilationError>)
    ensures
        core_result(*ast, tier, step_limit, mem_limit, floats@, kernel@, r),
{
    let (core_expr, core_proof) = match compile_ast_to_core_expr_with_proofs(ast, floats, kernel) {
        Ok(x) => x,
        Err(e) => {
            return Err(e);
        },
    };
    let final_proof = match core_proof {
        Some(p) => Some(p),
        None => kernel_lookup(kernel, &core_expr),
    };
    let (bytecode, constants) = compile_core_expr_to_bytecode(&core_expr);
    Ok(CompilationResult {
        bytecode,
        constants,
        step_limit,
        memory_limit: mem_limit,
        core_proof: final_proof,
        core_expr: Some(core_expr),
        required_capabilities: Vec::new(),
        granted_capabilities: tier.granted_capabilities(),
        empirical_check: EmpiricalResult::NotApplicable,
        sandboxed: false,
        source_map: SourceMap::new(),
        capability_audit: Vec::new(),
    })
}

/// Compiles a tree to bytecode with capability checks in front (see
/// `physics_result`).
fn compile_to_physics_with_checks(
    ast: &AstNode,
    tier: TrustTier,
    step_limit: u64,
    mem_limit: usize,
) -> (r: Result<CompilationResult, CompilationError>)
    requires
        tier == TrustTier::Empirical || tier == TrustTier::Experimental,
    ensures
        physics_result(*ast, tier, step_limit, mem_limit, r),
{
    let (bytecode, constants) = match compile_ast_to_bytecode(ast) {
        Ok(x) => x,
        Err(e) => {
            return Err(e);
        },
    };
    let (bytecode, capability_audit) = insert_capability_checks(bytecode, ast, tier);
    let required_capabilities = match analyze_capabilities(ast) {
        Ok(v) => v,
        Err(e) => {
            return Err(e);
        },
    };
    Ok(CompilationResult {
        bytecode,
        constants,
        step_limit,
        memory_limit: mem_limit,
        core_proof: None,
        core_expr: None,
        required_capabilities,
        granted_capabilities: tier.granted_capabilities(),
        empirical_check: EmpiricalResult::NotApplicable,
        sandboxed: tier == TrustTier::Experimental,
        source_map: SourceMap::new(),
        capability_audit,
    })
}

} // verus!
