//! The sandbox for experimental code: its limits, and the check that
//! sandboxed bytecode makes no host call and touches no capability.
use vstd::prelude::*;
use crate::error::CompilationError;
use crate::physics::{Capability, OpCode, Value};

verus! {

/// The limits of a sandbox and the capabilities it allows.
#[derive(Debug, Clone)]
pub struct SandboxConfig {
    /// The most steps a program may take.
    pub step_limit: u64,
    /// The most memory a program may use.
    pub memory_limit: usize,
    /// The deepest recursion allowed.
    pub recursion_limit: usize,
    /// The capabilities allowed.
    pub allowed_capabilities: Vec<Capability>,
}

/// A sandbox with its configuration.
pub struct Sandbox {
    /// The configuration.
    pub config: SandboxConfig,
}

/// What a sandbox refuses to run: host calls and capability requests,
/// grants and revocations, with the message for each.
pub open spec fn forbidden_message(op: OpCode) -> Option<Seq<char>> {
    match op {
        OpCode::HostCall { .. } => Some("Host calls are not allowed in sandboxed execution"@),
        OpCode::RequestCap(_, _) => Some("Capability requests are not allowed in sandboxed execution"@),
        OpCode::GrantCap(_, _) => Some("Capability grants are not allowed in sandboxed execution"@),
        OpCode::RevokeCap(_, _) => Some(
            "Capability revocations are not allowed in sandboxed execution"@,
        ),
        _ => None,
    }
}

/// The message of the first forbidden instruction of `code` from index `i`
/// on.
pub open spec fn first_forbidden(code: Seq<OpCode>, i: int) -> Option<Seq<char>>
    decreases code.len() - i,
{
    if i < 0 || i >= code.len() {
        None
    } else {
        match forbidden_message(code[i]) {
            Some(m) => Some(m),
            None => first_forbidden(code, i + 1),
        }
    }
}

/// Is `op` an instruction that a sandbox forbids: a host call, or a
/// capability request, grant or revocation.
pub open spec fn is_forbidden(op: OpCode) -> bool {
    op is HostCall || op is RequestCap || op is GrantCap || op is RevokeCap
}

/// The search for a forbidden instruction from index `i` on finds one
/// exactly when the code holds a host call or a capability request, grant
/// or revocation there.
pub proof fn lemma_first_forbidden_iff(code: Seq<OpCode>, i: int)
    requires
        0 <= i,
    ensures
        first_forbidden(code, i) is Some <==> exists|k: int| i <= k < code.len() && is_forbidden(#[trigger] code[k]),
    decreases code.len() - i,
{
    if i < code.len() {
        lemma_first_forbidden_iff(code, i + 1);
        if is_forbidden(code[i]) {
            assert(first_forbidden(code, i) is Some);
        } else {
            assert forall|k: int| i <= k < code.len() && is_forbidden(#[trigger] code[k]) implies i + 1 <= k by {}
        }
    }
}

impl Sandbox {
    /// A sandbox with `config`.
    pub fn new(config: SandboxConfig) -> (r: Self)
        ensures
            r.config == config,
    {
        Sandbox { config }
    }

    /// Accepts bytecode with no forbidden instruction; otherwise reports the
    /// first one met.
    pub fn validate_bytecode(&self, bytecode: &[OpCode], constants: &[Value]) -> (r: Result<
        (),
        CompilationError,
    >)
        ensures
            match first_forbidden(bytecode@, 0) {
                None => r is Ok,
                Some(m) => r matches Err(CompilationError::ProofGenerationFailed(e)) && e@ == m,
            },
            r is Err <==> exists|k: int| 0 <= k < bytecode@.len() && is_forbidden(#[trigger] bytecode@[k]),
    {
        proof {
            lemma_first_forbidden_iff(bytecode@, 0);
        }
        let mut i: usize = 0;
        while i < bytecode.len()
            invariant
                i <= bytecode@.len(),
                first_forbidden(bytecode@, 0) == first_forbidden(bytecode@, i as int),
            decreases bytecode@.len() - i,
        {
            let m = match &bytecode[i] {
                OpCode::HostCall { .. } => "Host calls are not allowed in sandboxed execution",
                OpCode::RequestCap(_, _) => "Capability requests are not allowed in sandboxed execution",
                OpCode::GrantCap(_, _) => "Capability grants are not allowed in sandboxed execution",
                OpCode::RevokeCap(_, _) => "Capability revocations are not allowed in sandboxed execution",
                _ => {
                    i = i + 1;
                    continue;
                },
            };
            let e = String::from_str(m);
            assert(forbidden_message(bytecode@[i as int]) == Some(e@));
            return Err(CompilationError::ProofGenerationFailed(e));
        }
        Ok(())
    }

    /// The transformations applied before running sandboxed code; there are
    /// none yet, so the bytecode and constants come back as they are.
    pub fn apply_sandbox_transformations(&self, bytecode: Vec<OpCode>, constants: Vec<Value>) -> (r: (
        Vec<OpCode>,
        Vec<Value>,
    ))
        ensures
            r.0@ == bytecode@,
            r.1@ == constants@,
    {
        (bytecode, constants)
    }
}

/// Builds a sandbox.
pub struct SandboxBuilder {
    /// The configuration so far.
    pub config: SandboxConfig,
}

impl SandboxBuilder {
    /// The default limits: 1000 steps, 1 MiB of memory, recursion depth
    /// 100, no capability.
    pub fn new() -> (r: Self)
        ensures
            r.config.step_limit == 1000,
            r.config.memory_limit == 1024 * 1024,
            r.config.recursion_limit == 100,
            r.config.allowed_capabilities@.len() == 0,
    {
        SandboxBuilder {
            config: SandboxConfig {
                step_limit: 1000,
                memory_limit: 1024 * 1024,
                recursion_limit: 100,
                allowed_capabilities: Vec::new(),
            },
        }
    }

    /// Sets the step limit.
    pub fn with_step_limit(self, limit: u64) -> (r: Self)
        ensures
            r.config == (SandboxConfig { step_limit: limit, ..self.config }),
    {
        let mut s = self;
        s.config.step_limit = limit;
        s
    }

    /// Sets the memory limit.
    pub fn with_memory_limit(self, limit: usize) -> (r: Self)
        ensures
            r.config == (SandboxConfig { memory_limit: limit, ..self.config }),
    {
        let mut s = self;
        s.config.memory_limit = limit;
        s
    }

    /// Sets the recursion limit.
    pub fn with_recursion_limit(self, limit: usize) -> (r: Self)
        ensures
            r.config == (SandboxConfig { recursion_limit: limit, ..self.config }),
    {
        let mut s = self;
        s.config.recursion_limit = limit;
        s
    }

    /// Allows one more capability.
    pub fn with_capability(self, capability: Capability) -> (r: Self)
        ensures
            r.config.allowed_capabilities@ == self.config.allowed_capabilities@.push(capability),
            r.config == (SandboxConfig { allowed_capabilities: r.config.allowed_capabilities, ..self.config }),
    {
        let mut s = self;
        s.config.allowed_capabilities.push(capability);
        s
    }

    /// The sandbox configured.
    pub fn build(self) -> (r: Sandbox)
        ensures
            r.config == self.config,
    {
        Sandbox::new(self.config)
    }
}

} // verus!
