//! Resource limits for running compiled programs: a static estimate of what
//! bytecode will use, checked against configured limits, and a monitor that
//! reports what a run used.
use vstd::prelude::*;
use crate::error::CompilationError;
use crate::physics::{OpCode, Value};
use crate::text::{push_decimal, decimal};

verus! {

/// The limits a run of a program is held to.
#[derive(Debug, Clone)]
pub struct ResourceLimits {
    /// Maximum execution steps.
    pub step_limit: u64,
    /// Maximum memory use in bytes.
    pub memory_limit: usize,
    /// Maximum call stack depth.
    pub call_stack_limit: usize,
    /// Maximum number of heap allocations.
    pub heap_allocation_limit: usize,
}

/// The errors of the virtual machine that the limit checks tell apart.
#[derive(Debug, Clone, Copy, PartialEq, Eq, Structural)]
pub enum VmError {
    /// The step budget ran out.
    CpuLimitExceeded,
    /// The memory budget ran out.
    MemoryLimitExceeded,
    /// A value was popped from an empty stack.
    StackUnderflow,
    /// Any other failure of the machine.
    Other,
}

/// The parts of a machine's state that the limits govern.
#[derive(Debug, Clone, Copy, PartialEq, Eq, Structural)]
pub struct VmResources {
    /// Steps the machine may still take.
    pub steps_remaining: u64,
    /// Capacity of the object arena in bytes.
    pub memory_capacity: u32,
    /// First free byte of the object arena.
    pub memory_next_free: u32,
}

/// Bytes that a constant is estimated to take.
pub open spec fn constant_cost(v: Value) -> int {
    match v {
        Value::Nil => 1,
        Value::Bool(_) => 1,
        Value::Int(_) => 8,
        Value::Float(_) => 8,
        Value::String(_) => 8,
        Value::Symbol(_) => 4,
        Value::Pair(_) => 8,
        Value::Closure(_) => 16,
        Value::ActorId(_) => 4,
        Value::Capability(_) => 8,
        Value::GcPtr(_) => 4,
    }
}

/// Heap bytes that an instruction is estimated to allocate.
pub open spec fn opcode_cost(o: OpCode) -> int {
    match o {
        OpCode::Cons => 8,
        OpCode::MakeClosure(_, captures) => 4 + captures * 4,
        _ => 0,
    }
}

/// The summed cost of a constant pool.
pub open spec fn constants_cost(s: Seq<Value>) -> int
    decreases s.len(),
{
    if s.len() == 0 {
        0
    } else {
        constants_cost(s.drop_last()) + constant_cost(s.last())
    }
}

/// The summed heap cost of a sequence of instructions.
pub open spec fn opcodes_cost(s: Seq<OpCode>) -> int
    decreases s.len(),
{
    if s.len() == 0 {
        0
    } else {
        opcodes_cost(s.drop_last()) + opcode_cost(s.last())
    }
}

/// The memory a program is estimated to use: its constants, its heap
/// allocations and a fixed overhead of 1024 bytes.
pub open spec fn memory_estimate(bytecode: Seq<OpCode>, constants: Seq<Value>) -> int {
    constants_cost(constants) + opcodes_cost(bytecode) + 1024
}

proof fn lemma_costs_nonneg(b: Seq<OpCode>, c: Seq<Value>)
    ensures
        constants_cost(c) >= 0,
        opcodes_cost(b) >= 0,
    decreases b.len() + c.len(),
{
    if c.len() > 0 {
        lemma_costs_nonneg(b, c.drop_last());
    }
    if b.len() > 0 {
        lemma_costs_nonneg(b.drop_last(), c);
    }
}

proof fn lemma_constants_cost_prefix(s: Seq<Value>, i: int)
    requires
        0 <= i <= s.len(),
    ensures
        constants_cost(s.take(i)) <= constants_cost(s),
    decreases s.len() - i,
{
    if i < s.len() {
        lemma_constants_cost_prefix(s, i + 1);
        assert(s.take(i + 1).drop_last() =~= s.take(i));
    } else {
        assert(s.take(i) =~= s);
    }
}

proof fn lemma_opcodes_cost_prefix(s: Seq<OpCode>, i: int)
    requires
        0 <= i <= s.len(),
    ensures
        opcodes_cost(s.take(i)) <= opcodes_cost(s),
    decreases s.len() - i,
{
    if i < s.len() {
        lemma_opcodes_cost_prefix(s, i + 1);
        assert(s.take(i + 1).drop_last() =~= s.take(i));
        assert(opcode_cost(s[i]) >= 0);
    } else {
        assert(s.take(i) =~= s);
    }
}

/// Checks bytecode against resource limits before it runs.
pub struct ResourceLimitEnforcer {
    limits: ResourceLimits,
}

impl ResourceLimitEnforcer {
    /// The limits this enforcer applies.
    pub closed spec fn limits_spec(&self) -> ResourceLimits {
        self.limits
    }

    /// An enforcer of the given limits.
    pub fn new(limits: ResourceLimits) -> (r: Self)
        ensures
            r.limits_spec() == limits,
    {
        Self { limits }
    }

    /// Sets a machine's step budget to the step limit and, where its arena
    /// is larger than the memory limit, replaces the arena with an empty one
    /// of that size (the limit taken modulo 2^32).
    pub fn apply_limits_to_vm(&self, vm: &mut VmResources)
        ensures
            final(vm).steps_remaining == self.limits_spec().step_limit,
            old(vm).memory_capacity > (self.limits_spec().memory_limit as u32) ==> final(vm).memory_capacity
                == (self.limits_spec().memory_limit as u32) && final(vm).memory_next_free == 0,
            old(vm).memory_capacity <= (self.limits_spec().memory_limit as u32) ==> final(vm).memory_capacity
                == old(vm).memory_capacity && final(vm).memory_next_free == old(vm).memory_next_free,
    {
        vm.steps_remaining = self.limits.step_limit;
        let cap: u32 = self.limits.memory_limit as u32;
        if vm.memory_capacity > cap {
            vm.memory_capacity = cap;
            vm.memory_next_free = 0;
        }
    }

    /// Checks that the estimated step count (one per instruction) and the
    /// estimated memory use stay within the limits.
    pub fn validate_bytecode(&self, bytecode: &[OpCode], constants: &[Value]) -> (r: Result<
        (),
        CompilationError,
    >)
        requires
            memory_estimate(bytecode@, constants@) <= usize::MAX,
        ensures
            r is Ok <==> bytecode@.len() <= self.limits_spec().step_limit && memory_estimate(
                bytecode@,
                constants@,
            ) <= self.limits_spec().memory_limit,
            bytecode@.len() > self.limits_spec().step_limit ==> (match r {
                Err(CompilationError::ProofGenerationFailed(m)) => m@ == "Estimated step count "@
                    + decimal(bytecode@.len()) + " exceeds limit "@ + decimal(
                    self.limits_spec().step_limit as nat,
                ),
                _ => false,
            }),
            bytecode@.len() <= self.limits_spec().step_limit && memory_estimate(
                bytecode@,
                constants@,
            ) > self.limits_spec().memory_limit ==> (match r {
                Err(CompilationError::ProofGenerationFailed(m)) => m@ == "Estimated memory usage "@
                    + decimal(memory_estimate(bytecode@, constants@) as nat) + " exceeds limit "@
                    + decimal(self.limits_spec().memory_limit as nat),
                _ => false,
            }),
    {
        let steps = self.estimate_step_count(bytecode);
        let memory = self.estimate_memory_usage(bytecode, constants);
        if steps > self.limits.step_limit {
            let mut m = String::from_str("Estimated step count ");
            push_decimal(&mut m, steps);
            m.append(" exceeds limit ");
            push_decimal(&mut m, self.limits.step_limit);
            return Err(CompilationError::ProofGenerationFailed(m));
        }
        if memory > self.limits.memory_limit {
            let mut m = String::from_str("Estimated memory usage ");
            push_decimal(&mut m, memory as u64);
            m.append(" exceeds limit ");
            push_decimal(&mut m, self.limits.memory_limit as u64);
            return Err(CompilationError::ProofGenerationFailed(m));
        }
        Ok(())
    }

    /// The estimated number of steps: one per instruction.
    pub fn estimate_step_count(&self, bytecode: &[OpCode]) -> (r: u64)
        ensures
            r == bytecode@.len(),
    {
        bytecode.len() as u64
    }

    /// The estimated memory use of a program.
    pub fn estimate_memory_usage(&self, bytecode: &[OpCode], constants: &[Value]) -> (r: usize)
        requires
            memory_estimate(bytecode@, constants@) <= usize::MAX,
        ensures
            r == memory_estimate(bytecode@, constants@),
    {
        proof {
            lemma_costs_nonneg(bytecode@, constants@);
        }
        let mut total: usize = 0;
        let mut i: usize = 0;
        while i < constants.len()
            invariant
                i <= constants@.len(),
                total == constants_cost(constants@.take(i as int)),
                memory_estimate(bytecode@, constants@) <= usize::MAX,
                opcodes_cost(bytecode@) >= 0,
            decreases constants@.len() - i,
        {
            proof {
                lemma_constants_cost_prefix(constants@, i + 1);
                assert(constants@.take(i + 1).drop_last() =~= constants@.take(i as int));
            }
            let cost: usize = match &constants[i] {
                Value::Nil => 1,
                Value::Bool(_) => 1,
                Value::Int(_) => 8,
                Value::Float(_) => 8,
                Value::String(_) => 8,
                Value::Symbol(_) => 4,
                Value::Pair(_) => 8,
                Value::Closure(_) => 16,
                Value::ActorId(_) => 4,
                Value::Capability(_) => 8,
                Value::GcPtr(_) => 4,
            };
            total = total + cost;
            i = i + 1;
        }
        assert(constants@.take(constants@.len() as int) =~= constants@);
        let mut j: usize = 0;
        while j < bytecode.len()
            invariant
                j <= bytecode@.len(),
                total == constants_cost(constants@) + opcodes_cost(bytecode@.take(j as int)),
                memory_estimate(bytecode@, constants@) <= usize::MAX,
                constants_cost(constants@) >= 0,
            decreases bytecode@.len() - j,
        {
            proof {
                lemma_opcodes_cost_prefix(bytecode@, j + 1);
                assert(bytecode@.take(j + 1).drop_last() =~= bytecode@.take(j as int));
            }
            match &bytecode[j] {
                OpCode::Cons => {
                    total = total + 8;
                },
                OpCode::MakeClosure(_, captures) => {
                    total = total + 4 + captures * 4;
                },
                _ => {},
            }
            j = j + 1;
        }
        assert(bytecode@.take(bytecode@.len() as int) =~= bytecode@);
        total + 1024
    }

    /// Whether a machine error is one of running out of steps or memory.
    pub fn is_resource_limit_error(&self, error: &VmError) -> (r: bool)
        ensures
            r <==> (*error == VmError::CpuLimitExceeded || *error == VmError::MemoryLimitExceeded),
    {
        match error {
            VmError::CpuLimitExceeded => true,
            VmError::MemoryLimitExceeded => true,
            _ => false,
        }
    }

    /// The limits this enforcer applies.
    pub fn get_limits(&self) -> (r: &ResourceLimits)
        ensures
            *r == self.limits_spec(),
    {
        &self.limits
    }
}

/// Builds resource limits step by step.
pub struct ResourceLimitBuilder {
    limits: ResourceLimits,
}

impl ResourceLimitBuilder {
    /// The limits built so far.
    pub closed spec fn limits_spec(&self) -> ResourceLimits {
        self.limits
    }

    /// A builder with the default limits: 1000 steps, 1 MiB of memory, a
    /// call stack of 100 and 1000 heap allocations.
    pub fn new() -> (r: Self)
        ensures
            r.limits_spec() == (ResourceLimits {
                step_limit: 1000,
                memory_limit: 1048576usize,
                call_stack_limit: 100,
                heap_allocation_limit: 1000,
            }),
    {
        Self {
            limits: ResourceLimits {
                step_limit: 1000,
                memory_limit: 1024 * 1024,
                call_stack_limit: 100,
                heap_allocation_limit: 1000,
            },
        }
    }

    /// Sets the step limit.
    pub fn with_step_limit(self, limit: u64) -> (r: Self)
        ensures
            r.limits_spec() == (ResourceLimits { step_limit: limit, ..self.limits_spec() }),
    {
        let mut b = self;
        b.limits.step_limit = limit;
        b
    }

    /// Sets the memory limit.
    pub fn with_memory_limit(self, limit: usize) -> (r: Self)
        ensures
            r.limits_spec() == (ResourceLimits { memory_limit: limit, ..self.limits_spec() }),
    {
        let mut b = self;
        b.limits.memory_limit = limit;
        b
    }

    /// Sets the call stack limit.
    pub fn with_call_stack_limit(self, limit: usize) -> (r: Self)
        ensures
            r.limits_spec() == (ResourceLimits { call_stack_limit: limit, ..self.limits_spec() }),
    {
        let mut b = self;
        b.limits.call_stack_limit = limit;
        b
    }

    /// Sets the heap allocation limit.
    pub fn with_heap_allocation_limit(self, limit: usize) -> (r: Self)
        ensures
            r.limits_spec() == (ResourceLimits { heap_allocation_limit: limit, ..self.limits_spec() }),
    {
        let mut b = self;
        b.limits.heap_allocation_limit = limit;
        b
    }

    /// An enforcer of the limits built.
    pub fn build(self) -> (r: ResourceLimitEnforcer)
        ensures
            r.limits_spec() == self.limits_spec(),
    {
        ResourceLimitEnforcer::new(self.limits)
    }
}

/// What a run used.
#[derive(Debug, Clone)]
pub struct ResourceUsageReport {
    /// Steps taken.
    pub steps_used: u64,
    /// Bytes of memory used.
    pub memory_used: usize,
    /// Heap allocations made.
    pub heap_allocations: usize,
}

/// Watches a machine's resources across a run.
pub struct ResourceMonitor {
    /// The step budget when monitoring started.
    pub initial_steps: u64,
    /// The arena's first free byte when monitoring started.
    pub initial_memory: u32,
    /// Steps counted so far.
    pub step_count: u64,
    /// Bytes counted so far.
    pub memory_usage: u32,
    /// Heap allocations counted so far.
    pub heap_allocations: usize,
}

impl ResourceMonitor {
    /// A monitor with every count at zero.
    pub fn new() -> (r: Self)
        ensures
            r.initial_steps == 0,
            r.initial_memory == 0,
            r.step_count == 0,
            r.memory_usage == 0,
            r.heap_allocations == 0,
    {
        Self { initial_steps: 0, initial_memory: 0, step_count: 0, memory_usage: 0, heap_allocations: 0 }
    }

    /// Records the machine's budget and arena position and resets the counts.
    pub fn start_monitoring(&mut self, vm: &VmResources)
        ensures
            final(self).initial_steps == vm.steps_remaining,
            final(self).initial_memory == vm.memory_next_free,
            final(self).step_count == 0,
            final(self).memory_usage == 0,
            final(self).heap_allocations == 0,
    {
        self.initial_steps = vm.steps_remaining;
        self.initial_memory = vm.memory_next_free;
        self.step_count = 0;
        self.memory_usage = 0;
        self.heap_allocations = 0;
    }

    /// Counts the steps taken and the arena bytes used since monitoring
    /// started.
    pub fn update_after_execution(&mut self, vm: &VmResources)
        requires
            vm.steps_remaining <= old(self).initial_steps,
            old(self).initial_memory <= vm.memory_next_free,
        ensures
            final(self).step_count == old(self).initial_steps - vm.steps_remaining,
            final(self).memory_usage == vm.memory_next_free - old(self).initial_memory,
            final(self).initial_steps == old(self).initial_steps,
            final(self).initial_memory == old(self).initial_memory,
            final(self).heap_allocations == old(self).heap_allocations,
    {
        self.step_count = self.initial_steps - vm.steps_remaining;
        self.memory_usage = vm.memory_next_free - self.initial_memory;
    }

    /// Counts one heap allocation of `size` bytes (taken modulo 2^32).
    pub fn record_heap_allocation(&mut self, size: usize)
        requires
            old(self).heap_allocations < usize::MAX,
            old(self).memory_usage + (size as u32) <= u32::MAX,
        ensures
            final(self).heap_allocations == old(self).heap_allocations + 1,
            final(self).memory_usage == old(self).memory_usage + (size as u32),
            final(self).step_count == old(self).step_count,
            final(self).initial_steps == old(self).initial_steps,
            final(self).initial_memory == old(self).initial_memory,
    {
        self.heap_allocations = self.heap_allocations + 1;
        let s: u32 = size as u32;
        self.memory_usage = self.memory_usage + s;
    }

    /// The counts so far.
    pub fn get_report(&self) -> (r: ResourceUsageReport)
        ensures
            r.steps_used == self.step_count,
            r.memory_used == self.memory_usage,
            r.heap_allocations == self.heap_allocations,
    {
        ResourceUsageReport {
            steps_used: self.step_count,
            memory_used: self.memory_usage as usize,
            heap_allocations: self.heap_allocations,
        }
    }
}

} // verus!
