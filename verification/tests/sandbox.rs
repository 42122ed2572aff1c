use jue_world::error::CompilationError;
use jue_world::physics::{Capability, OpCode, Value};
use jue_world::sandbox::{Sandbox, SandboxBuilder, SandboxConfig};
use jue_world::sandbox_wrapper::{create_sandbox_config, execute_in_sandbox, validate_bytecode, SandboxExecutionResult};
use jue_world::trust_tier::TrustTier;

#[test]
fn test_sandbox_creation() {
    let config = SandboxConfig {
        step_limit: 100,
        memory_limit: 1024,
        recursion_limit: 50,
        allowed_capabilities: vec![Capability::IoReadSensor],
    };

    let sandbox = Sandbox::new(config);
    assert!(sandbox.config.step_limit == 100);
    assert!(sandbox.config.memory_limit == 1024);
    assert!(sandbox.config.recursion_limit == 50);
    assert!(sandbox.config.allowed_capabilities.contains(&Capability::IoReadSensor));
}

#[test]
fn test_sandbox_builder() {
    let sandbox = SandboxBuilder::new()
        .with_step_limit(200)
        .with_memory_limit(2048)
        .with_recursion_limit(100)
        .with_capability(Capability::IoWriteActuator)
        .build();

    assert!(sandbox.config.step_limit == 200);
    assert!(sandbox.config.memory_limit == 2048);
    assert!(sandbox.config.recursion_limit == 100);
    assert!(sandbox.config.allowed_capabilities.contains(&Capability::IoWriteActuator));
}

#[test]
fn sandbox_test_bytecode_validation() {
    let sandbox = SandboxBuilder::new().build();

    let safe_bytecode = vec![OpCode::Int(42), OpCode::Int(1), OpCode::Add];
    let result = sandbox.validate_bytecode(&safe_bytecode, &[]);
    assert!(result.is_ok());

    let unsafe_bytecode = vec![OpCode::HostCall { cap_idx: 0, func_id: 0, args: 0 }];
    let result = sandbox.validate_bytecode(&unsafe_bytecode, &[]);
    assert!(result.is_err());
}

#[test]
fn test_sandbox_transformations() {
    let sandbox = SandboxBuilder::new().build();

    let bytecode = vec![OpCode::Int(42), OpCode::Int(1), OpCode::Add];
    let constants: Vec<Value> = vec![];

    let (transformed_bytecode, transformed_constants) =
        sandbox.apply_sandbox_transformations(bytecode.clone(), constants.clone());

    assert_eq!(transformed_bytecode, bytecode);
    assert_eq!(transformed_constants, constants);
}

#[test]
fn sandbox_defaults() {
    let sandbox = SandboxBuilder::new().build();
    assert_eq!(sandbox.config.step_limit, 1000);
    assert_eq!(sandbox.config.memory_limit, 1024 * 1024);
    assert_eq!(sandbox.config.recursion_limit, 100);
    assert!(sandbox.config.allowed_capabilities.is_empty());
}

#[test]
fn sandbox_reports_first_forbidden_instruction() {
    let sandbox = SandboxBuilder::new().build();
    let cases = vec![
        (OpCode::RequestCap(0, 1), "Capability requests are not allowed in sandboxed execution"),
        (OpCode::GrantCap(0, 1), "Capability grants are not allowed in sandboxed execution"),
        (OpCode::RevokeCap(0, 1), "Capability revocations are not allowed in sandboxed execution"),
        (OpCode::HostCall { cap_idx: 0, func_id: 1, args: 2 }, "Host calls are not allowed in sandboxed execution"),
    ];
    for (op, message) in cases {
        let code = vec![OpCode::Int(1), op, OpCode::HostCall { cap_idx: 0, func_id: 0, args: 0 }];
        match sandbox.validate_bytecode(&code, &[]) {
            Err(CompilationError::ProofGenerationFailed(m)) => assert_eq!(m, message),
            other => panic!("unexpected {:?}", other),
        }
    }
}

#[test]
fn sandbox_wrapper_config_lists_granted_capability_names() {
    let config = create_sandbox_config(TrustTier::Formal);
    assert_eq!(config.max_steps, 1000);
    assert_eq!(config.max_memory, 1024 * 1024);
    assert_eq!(config.allowed_capabilities, vec!["MacroHygienic".to_string(), "ComptimeEval".to_string()]);
    assert!(validate_bytecode(&[1, 2, 3], &config).is_ok());
    match execute_in_sandbox(vec![], vec![], &config) {
        Ok(SandboxExecutionResult::Success(Value::Nil)) => {}
        _ => panic!("expected nil"),
    }
}
