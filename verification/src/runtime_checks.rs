//! Checks of a running program's stack depth, memory and step count
//! against fixed limits.
use vstd::prelude::*;
use crate::error::CompilationError;
use crate::physics::Value;
use crate::text::{push_decimal, decimal};

verus! {

/// The limits a running program is checked against.
pub struct RuntimeCheckContext {
    /// Maximum stack depth.
    pub max_stack_depth: usize,
    /// Maximum memory use in bytes.
    pub max_memory_usage: usize,
    /// Maximum execution steps.
    pub max_execution_steps: usize,
}

/// The outcome of a runtime check.
pub enum RuntimeCheckResult {
    /// Within the limits.
    Pass,
    /// Over a limit, for this reason.
    Fail(CompilationError),
}

/// The default limits: a stack of 1000, 1 MiB of memory, 10000 steps.
pub fn create_runtime_check_context() -> (r: RuntimeCheckContext)
    ensures
        r.max_stack_depth == 1000,
        r.max_memory_usage == 1048576,
        r.max_execution_steps == 10000,
{
    RuntimeCheckContext { max_stack_depth: 1000, max_memory_usage: 1024 * 1024, max_execution_steps: 10000 }
}

/// Checks a value. No property of values is checked yet: every value passes.
pub fn check_value(value: &Value, context: &RuntimeCheckContext) -> (r: RuntimeCheckResult)
    ensures
        r is Pass,
{
    RuntimeCheckResult::Pass
}

/// The message of a failed check: `what`, the amount, `" exceeds limit "`
/// and the limit.
pub open spec fn over_limit_message(what: Seq<char>, amount: nat, limit: nat) -> Seq<char> {
    what + decimal(amount) + " exceeds limit "@ + decimal(limit)
}

fn over_limit(what: &str, amount: usize, limit: usize) -> (r: CompilationError)
    ensures
        r matches CompilationError::ComptimeError(m) && m@ == over_limit_message(
            what@,
            amount as nat,
            limit as nat,
        ),
{
    let mut m = String::from_str(what);
    push_decimal(&mut m, amount as u64);
    m.append(" exceeds limit ");
    push_decimal(&mut m, limit as u64);
    CompilationError::ComptimeError(m)
}

/// Checks the stack depth, then the memory use, then the step count against
/// the limits; the first one over its limit fails the check.
pub fn check_execution_state(
    stack_depth: usize,
    memory_usage: usize,
    execution_steps: usize,
    context: &RuntimeCheckContext,
) -> (r: RuntimeCheckResult)
    ensures
        stack_depth > context.max_stack_depth ==> (r matches RuntimeCheckResult::Fail(
            CompilationError::ComptimeError(m),
        ) && m@ == over_limit_message(
            "Stack depth "@,
            stack_depth as nat,
            context.max_stack_depth as nat,
        )),
        stack_depth <= context.max_stack_depth && memory_usage > context.max_memory_usage ==> (
        r matches RuntimeCheckResult::Fail(CompilationError::ComptimeError(m)) && m@
            == over_limit_message(
            "Memory usage "@,
            memory_usage as nat,
            context.max_memory_usage as nat,
        )),
        stack_depth <= context.max_stack_depth && memory_usage <= context.max_memory_usage
            && execution_steps > context.max_execution_steps ==> (r matches RuntimeCheckResult::Fail(
            CompilationError::ComptimeError(m),
        ) && m@ == over_limit_message(
            "Execution steps "@,
            execution_steps as nat,
            context.max_execution_steps as nat,
        )),
        r is Pass <==> (stack_depth <= context.max_stack_depth && memory_usage
            <= context.max_memory_usage && execution_steps <= context.max_execution_steps),
{
    if stack_depth > context.max_stack_depth {
        return RuntimeCheckResult::Fail(over_limit("Stack depth ", stack_depth, context.max_stack_depth));
    }
    if memory_usage > context.max_memory_usage {
        return RuntimeCheckResult::Fail(
            over_limit("Memory usage ", memory_usage, context.max_memory_usage),
        );
    }
    if execution_steps > context.max_execution_steps {
        return RuntimeCheckResult::Fail(
            over_limit("Execution steps ", execution_steps, context.max_execution_steps),
        );
    }
    RuntimeCheckResult::Pass
}

} // verus!
