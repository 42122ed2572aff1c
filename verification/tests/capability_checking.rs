use jue_world::ast::{AstNode, Literal};
use jue_world::capability_analyzer::{analyze_capabilities, get_ffi_function_capability, validate_ffi_call};
use jue_world::capability_checking::{insert_capability_checks, CheckType};
use jue_world::error::{CompilationError, SourceLocation};
use jue_world::physics::{Capability, OpCode};
use jue_world::trust_tier::TrustTier;

#[test]
fn test_capability_check_insertion() {
    let ast = AstNode::RequireCapability {
        capability: "io-read-sensor".to_string(),
        location: SourceLocation::default(),
    };

    let (bytecode, audit) = insert_capability_checks(vec![OpCode::Int(42)], &ast, TrustTier::Empirical);
    assert_eq!(bytecode.len(), 2);
    assert!(matches!(bytecode[0], OpCode::HasCap(0)));
    assert!(matches!(bytecode[1], OpCode::Int(42)));
    assert_eq!(audit.len(), 1);
    assert_eq!(audit[0].capability, Capability::IoReadSensor);
    assert_eq!(audit[0].check_type, CheckType::Runtime);

    let (bytecode_formal, audit_formal) =
        insert_capability_checks(vec![OpCode::Int(42)], &ast, TrustTier::Formal);
    assert_eq!(bytecode_formal.len(), 1);
    assert!(matches!(bytecode_formal[0], OpCode::Int(42)));
    assert!(audit_formal.is_empty());
}

#[test]
fn test_ffi_capability_requirement() {
    let ast = AstNode::FfiCall {
        function: "some_function".to_string(),
        arguments: vec![],
        location: SourceLocation::default(),
    };

    let (bytecode, audit) = insert_capability_checks(vec![OpCode::Int(42)], &ast, TrustTier::Experimental);
    assert_eq!(bytecode.len(), 2);
    assert!(matches!(bytecode[0], OpCode::HasCap(0)));
    assert!(matches!(bytecode[1], OpCode::Int(42)));
    assert_eq!(audit.len(), 1);
    assert_eq!(audit[0].capability, Capability::MacroUnsafe);
    assert_eq!(audit[0].check_type, CheckType::Runtime);
}

#[test]
fn test_macro_capability_requirement() {
    let ast = AstNode::MacroDefinition {
        name: "test-macro".to_string(),
        parameters: vec![],
        body: Box::new(AstNode::Literal(Literal::Int(42))),
        capabilities: vec!["macro-hygienic".to_string()],
        tier: "empirical".to_string(),
        location: SourceLocation::default(),
    };

    let (bytecode, audit) = insert_capability_checks(vec![OpCode::Int(42)], &ast, TrustTier::Empirical);
    assert_eq!(bytecode.len(), 2);
    assert!(matches!(bytecode[0], OpCode::HasCap(0)));
    assert!(matches!(bytecode[1], OpCode::Int(42)));
    assert_eq!(audit.len(), 1);
    assert_eq!(audit[0].capability, Capability::MacroHygienic);
    assert_eq!(audit[0].check_type, CheckType::Runtime);
}

#[test]
fn test_ffi_capability_analysis_integration() {
    let ast = AstNode::FfiCall {
        function: "read-sensor".to_string(),
        arguments: vec![],
        location: SourceLocation::default(),
    };

    let capabilities = analyze_capabilities(&ast).unwrap();
    assert_eq!(capabilities.len(), 1);
    assert_eq!(capabilities[0], Capability::IoReadSensor);

    let result = validate_ffi_call(TrustTier::Empirical, "read-sensor");
    assert!(result.is_ok());

    let result = validate_ffi_call(TrustTier::Formal, "read-sensor");
    assert!(result.is_err());
}

#[test]
fn test_ffi_capability_mapping() {
    assert_eq!(get_ffi_function_capability("read-sensor"), Some(Capability::IoReadSensor));
    assert_eq!(get_ffi_function_capability("write-actuator"), Some(Capability::IoWriteActuator));
    assert_eq!(get_ffi_function_capability("get-wall-clock"), Some(Capability::SysClock));
    assert_eq!(get_ffi_function_capability("network-send"), Some(Capability::IoNetwork));
    assert_eq!(get_ffi_function_capability("persist-write"), Some(Capability::IoPersist));
    assert_eq!(get_ffi_function_capability("unknown-function"), None);
}

#[test]
fn test_ffi_trust_tier_validation() {
    assert!(validate_ffi_call(TrustTier::Empirical, "read-sensor").is_ok());
    assert!(validate_ffi_call(TrustTier::Empirical, "write-actuator").is_ok());

    assert!(validate_ffi_call(TrustTier::Empirical, "get-wall-clock").is_err());
    assert!(validate_ffi_call(TrustTier::Empirical, "spawn-actor").is_err());

    assert!(validate_ffi_call(TrustTier::Experimental, "read-sensor").is_ok());
    assert!(validate_ffi_call(TrustTier::Experimental, "write-actuator").is_ok());
    assert!(validate_ffi_call(TrustTier::Experimental, "get-wall-clock").is_ok());
    assert!(validate_ffi_call(TrustTier::Experimental, "spawn-actor").is_ok());

    assert!(validate_ffi_call(TrustTier::Formal, "read-sensor").is_err());
    assert!(validate_ffi_call(TrustTier::Formal, "write-actuator").is_err());
}

#[test]
fn test_ffi_capability_check_generation() {
    let ast = AstNode::FfiCall {
        function: "read-sensor".to_string(),
        arguments: vec![],
        location: SourceLocation::default(),
    };
    let (bytecode, audit) = insert_capability_checks(vec![OpCode::Int(42)], &ast, TrustTier::Empirical);
    assert_eq!(bytecode.len(), 2);
    assert!(matches!(bytecode[0], OpCode::HasCap(0)));
    assert_eq!(audit.len(), 1);
    assert_eq!(audit[0].capability, Capability::IoReadSensor);

    let ast = AstNode::FfiCall {
        function: "get-wall-clock".to_string(),
        arguments: vec![],
        location: SourceLocation::default(),
    };
    let (bytecode, audit) = insert_capability_checks(vec![OpCode::Int(42)], &ast, TrustTier::Empirical);
    assert_eq!(bytecode.len(), 2);
    assert!(matches!(bytecode[0], OpCode::HasCap(0)));
    assert_eq!(audit.len(), 1);
    assert_eq!(audit[0].capability, Capability::SysClock);
}

#[test]
fn test_ffi_capability_unknown_function() {
    let ast = AstNode::FfiCall {
        function: "unknown-ffi-function".to_string(),
        arguments: vec![],
        location: SourceLocation::default(),
    };
    let (bytecode, audit) = insert_capability_checks(vec![OpCode::Int(42)], &ast, TrustTier::Experimental);
    assert_eq!(bytecode.len(), 2);
    assert!(matches!(bytecode[0], OpCode::HasCap(0)));
    assert_eq!(audit.len(), 1);
    assert_eq!(audit[0].capability, Capability::MacroUnsafe);
}

#[test]
fn test_ffi_capability_complex_expression() {
    let ast = AstNode::Let {
        bindings: vec![(
            "sensor-val".to_string(),
            AstNode::FfiCall {
                function: "read-sensor".to_string(),
                arguments: vec![],
                location: SourceLocation::default(),
            },
        )],
        body: Box::new(AstNode::Symbol("sensor-val".to_string())),
        location: SourceLocation::default(),
    };
    let (bytecode, audit) = insert_capability_checks(vec![OpCode::Int(42)], &ast, TrustTier::Empirical);
    assert_eq!(bytecode.len(), 2);
    assert!(matches!(bytecode[0], OpCode::HasCap(0)));
    assert_eq!(audit.len(), 1);
    assert_eq!(audit[0].capability, Capability::IoReadSensor);
}

#[test]
fn ffi_denial_names_function_capability_and_tier() {
    match validate_ffi_call(TrustTier::Empirical, "get-wall-clock") {
        Err(CompilationError::CapabilityError(v)) => {
            assert_eq!(v.required, Capability::SysClock);
            assert_eq!(v.tier, TrustTier::Empirical);
            assert_eq!(
                v.suggestion,
                "FFI call to get-wall-clock requires capability SysClock not granted for trust tier Empirical. Consider using a higher trust tier."
            );
        }
        other => panic!("unexpected {:?}", other),
    }
    match validate_ffi_call(TrustTier::Experimental, "no-such-function") {
        Err(CompilationError::FfiError(m)) => {
            assert_eq!(m, "FFI function no-such-function not found in capability mapping");
        }
        other => panic!("unexpected {:?}", other),
    }
}
