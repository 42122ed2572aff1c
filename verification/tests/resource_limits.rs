use jue_world::physics::{OpCode, Value};
use jue_world::resource_limits::{
    ResourceLimitBuilder, ResourceLimitEnforcer, ResourceLimits, ResourceMonitor, VmError,
    VmResources,
};
use jue_world::error::CompilationError;

#[test]
fn test_resource_limit_creation() {
    let limits = ResourceLimits {
        step_limit: 100,
        memory_limit: 1024,
        call_stack_limit: 50,
        heap_allocation_limit: 100,
    };

    let enforcer = ResourceLimitEnforcer::new(limits);
    assert!(enforcer.get_limits().step_limit == 100);
    assert!(enforcer.get_limits().memory_limit == 1024);
    assert!(enforcer.get_limits().call_stack_limit == 50);
    assert!(enforcer.get_limits().heap_allocation_limit == 100);
}

#[test]
fn test_resource_limit_builder() {
    let enforcer = ResourceLimitBuilder::new()
        .with_step_limit(200)
        .with_memory_limit(2048)
        .with_call_stack_limit(100)
        .with_heap_allocation_limit(200)
        .build();

    assert!(enforcer.get_limits().step_limit == 200);
    assert!(enforcer.get_limits().memory_limit == 2048);
    assert!(enforcer.get_limits().call_stack_limit == 100);
    assert!(enforcer.get_limits().heap_allocation_limit == 200);
}

#[test]
fn resource_limits_test_bytecode_validation() {
    let enforcer = ResourceLimitBuilder::new().build();

    let simple_bytecode = vec![OpCode::Int(42), OpCode::Int(1), OpCode::Add];
    let result = enforcer.validate_bytecode(&simple_bytecode, &[]);
    assert!(result.is_ok());

    let complex_bytecode = vec![OpCode::Int(42); 10000];
    let result = enforcer.validate_bytecode(&complex_bytecode, &[]);
    assert!(result.is_err());
}

#[test]
fn step_limit_error_message_names_both_numbers() {
    let enforcer = ResourceLimitBuilder::new().with_step_limit(2).build();
    let bytecode = vec![OpCode::Nil, OpCode::Nil, OpCode::Nil];
    match enforcer.validate_bytecode(&bytecode, &[]) {
        Err(CompilationError::ProofGenerationFailed(m)) => {
            assert_eq!(m, "Estimated step count 3 exceeds limit 2")
        }
        _ => panic!("expected a step limit error"),
    }
}

#[test]
fn memory_estimate_counts_constants_allocations_and_overhead() {
    // constants: Int 8 + Closure 16; Cons 8; MakeClosure(0, 2) 4 + 8; overhead 1024
    let enforcer = ResourceLimitBuilder::new().with_memory_limit(1067).build();
    let bytecode = vec![OpCode::Cons, OpCode::MakeClosure(0, 2)];
    let constants = vec![Value::Int(1), Value::Closure(3)];
    match enforcer.validate_bytecode(&bytecode, &constants) {
        Err(CompilationError::ProofGenerationFailed(m)) => {
            assert_eq!(m, "Estimated memory usage 1068 exceeds limit 1067")
        }
        _ => panic!("expected a memory limit error"),
    }
    let enforcer = ResourceLimitBuilder::new().with_memory_limit(1068).build();
    assert!(enforcer.validate_bytecode(&bytecode, &constants).is_ok());
}

#[test]
fn resource_limit_errors_are_recognised() {
    let enforcer = ResourceLimitBuilder::new().build();
    assert!(enforcer.is_resource_limit_error(&VmError::CpuLimitExceeded));
    assert!(enforcer.is_resource_limit_error(&VmError::MemoryLimitExceeded));
    assert!(!enforcer.is_resource_limit_error(&VmError::StackUnderflow));
}

#[test]
fn monitor_reports_steps_and_memory() {
    let mut monitor = ResourceMonitor::new();
    let vm = VmResources { steps_remaining: 100, memory_capacity: 1024, memory_next_free: 0 };
    monitor.start_monitoring(&vm);
    let after = VmResources { steps_remaining: 95, memory_capacity: 1024, memory_next_free: 16 };
    monitor.update_after_execution(&after);
    monitor.record_heap_allocation(8);
    let report = monitor.get_report();
    assert_eq!(report.steps_used, 5);
    assert_eq!(report.memory_used, 24);
    assert_eq!(report.heap_allocations, 1);
}

#[test]
fn applying_limits_shrinks_an_oversized_arena() {
    let enforcer = ResourceLimitBuilder::new().with_step_limit(7).with_memory_limit(64).build();
    let mut vm = VmResources { steps_remaining: 1, memory_capacity: 1024, memory_next_free: 12 };
    enforcer.apply_limits_to_vm(&mut vm);
    assert_eq!(vm, VmResources { steps_remaining: 7, memory_capacity: 64, memory_next_free: 0 });
}

#[test]
fn test_step_count_estimation() {
    let enforcer = ResourceLimitBuilder::new().build();

    let bytecode = vec![OpCode::Int(1), OpCode::Int(2), OpCode::Add];
    let estimated_steps = enforcer.estimate_step_count(&bytecode);

    assert!(estimated_steps == 3);
}

#[test]
fn test_memory_usage_estimation() {
    let enforcer = ResourceLimitBuilder::new().build();

    let bytecode = vec![OpCode::Cons, OpCode::MakeClosure(0, 2)];
    let constants = vec![];

    let estimated_memory = enforcer.estimate_memory_usage(&bytecode, &constants);

    // Cons (8 bytes) + MakeClosure (4 + 2*4 = 12 bytes) + overhead (1024)
    assert!(estimated_memory > 1000);
    assert_eq!(estimated_memory, 1044);
}

#[test]
fn test_resource_limit_error_detection() {
    let enforcer = ResourceLimitBuilder::new().build();

    assert!(enforcer.is_resource_limit_error(&VmError::CpuLimitExceeded));
    assert!(enforcer.is_resource_limit_error(&VmError::MemoryLimitExceeded));
    assert!(!enforcer.is_resource_limit_error(&VmError::StackUnderflow));
}

#[test]
fn test_resource_monitoring() {
    let mut monitor = ResourceMonitor::new();
    // A machine with a step budget of 100 and an arena of 1024 bytes.
    let mut vm = VmResources { steps_remaining: 100, memory_capacity: 1024, memory_next_free: 0 };

    monitor.start_monitoring(&vm);
    assert!(monitor.initial_steps == 100);
    assert!(monitor.initial_memory == 0);

    // Simulate some execution: five steps and a 16-byte allocation.
    vm.steps_remaining = 95;
    vm.memory_next_free = 16;

    monitor.update_after_execution(&vm);
    let report = monitor.get_report();

    assert!(report.steps_used == 5);
    assert!(report.memory_used > 0);
}
