//! The sandbox settings derived from a trust tier for running untrusted
//! code in the physics world.
use vstd::prelude::*;
use crate::error::CompilationError;
use crate::macro_ffi::{granted_name_list, granted_names};
use crate::physics::Value;
use crate::trust_tier::TrustTier;

verus! {

/// The settings of a sandbox for some trust tier.
pub struct SandboxConfig {
    /// The tier.
    pub trust_tier: TrustTier,
    /// The most steps allowed.
    pub max_steps: usize,
    /// The most memory allowed.
    pub max_memory: usize,
    /// The names of the capabilities allowed.
    pub allowed_capabilities: Vec<String>,
}

/// How a sandboxed run ended.
pub enum SandboxExecutionResult {
    /// It produced a value.
    Success(Value),
    /// It failed.
    Error(CompilationError),
    /// It ran out of a resource.
    ResourceLimitExceeded,
}

/// The settings for tier `trust_tier`: 1000 steps, 1 MiB of memory and the
/// names of the capabilities the tier grants.
pub fn create_sandbox_config(trust_tier: TrustTier) -> (r: SandboxConfig)
    ensures
        r.trust_tier == trust_tier,
        r.max_steps == 1000,
        r.max_memory == 1024 * 1024,
        r.allowed_capabilities@.map_values(|s: String| s@) == granted_names(trust_tier),
{
    SandboxConfig {
        trust_tier,
        max_steps: 1000,
        max_memory: 1024 * 1024,
        allowed_capabilities: granted_name_list(trust_tier),
    }
}

/// Runs code in the sandbox; every run yields nil for now.
pub fn execute_in_sandbox(bytecode: Vec<u8>, constants: Vec<Value>, config: &SandboxConfig) -> (r: Result<
    SandboxExecutionResult,
    CompilationError,
>)
    ensures
        r matches Ok(SandboxExecutionResult::Success(Value::Nil)),
{
    Ok(SandboxExecutionResult::Success(Value::Nil))
}

/// Checks code against the sandbox settings; every code passes for now.
pub fn validate_bytecode(bytecode: &[u8], config: &SandboxConfig) -> (r: Result<(), CompilationError>)
    ensures
        r is Ok,
{
    Ok(())
}

} // verus!
