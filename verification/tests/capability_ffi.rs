use jue_world::capability_ffi::{CapabilityMediatedFfiBuilder, CapabilityMediatedFfiGenerator, CapabilityMediatedFfiValidator};
use jue_world::capability_mediator::{check_capability, create_capability_mediator_config, mediate_capability_request, CapabilityCheckResult};
use jue_world::error::{CompilationError, SourceLocation};
use jue_world::physics::{Capability, HostFunction, OpCode, Value};
use jue_world::trust_tier::TrustTier;

#[test]
fn test_capability_mediated_ffi_generator_creation() {
    let generator = CapabilityMediatedFfiGenerator::new(TrustTier::Formal);
    assert!(generator.trust_tier == TrustTier::Formal);
    assert!(generator.get_required_capability("read-sensor").is_some());
    assert!(generator.get_host_function("read-sensor").is_some());
}

#[test]
fn test_capability_validation() {
    let generator = CapabilityMediatedFfiGenerator::new(TrustTier::Formal);
    let result = generator.validate_capability_for_tier(&Capability::IoReadSensor);
    assert!(result.is_err());

    let generator_empirical = CapabilityMediatedFfiGenerator::new(TrustTier::Empirical);
    let result = generator_empirical.validate_capability_for_tier(&Capability::IoReadSensor);
    assert!(result.is_ok());
}

#[test]
fn test_ffi_function_availability() {
    let generator = CapabilityMediatedFfiGenerator::new(TrustTier::Empirical);
    assert!(generator.is_ffi_function_available("read-sensor"));
    assert!(!generator.is_ffi_function_available("get-wall-clock"));
}

#[test]
fn test_capability_mediated_ffi_call_generation() {
    let generator = CapabilityMediatedFfiGenerator::new(TrustTier::Empirical);
    let arguments = vec![];
    let result = generator.generate_capability_mediated_ffi_call("read-sensor", &arguments, SourceLocation::default());
    assert!(result.is_ok());
}

#[test]
fn test_capability_mediated_ffi_validator() {
    let validator = CapabilityMediatedFfiValidator::new(TrustTier::Empirical);
    assert!(validator.validate_ffi_call("read-sensor").is_ok());
    assert!(validator.validate_ffi_call("get-wall-clock").is_err());

    let available_functions = validator.get_available_ffi_functions();
    assert!(available_functions.contains(&"read-sensor".to_string()));
    assert!(available_functions.contains(&"write-actuator".to_string()));
    assert!(!available_functions.contains(&"get-wall-clock".to_string()));
}

#[test]
fn test_capability_mediated_ffi_builder() {
    let builder = CapabilityMediatedFfiBuilder::new("read-sensor", TrustTier::Empirical)
        .with_argument(Value::Int(42))
        .with_location(SourceLocation::default());
    let result = builder.build();
    assert!(result.is_ok());
}

#[test]
fn test_standard_mappings() {
    let generator = CapabilityMediatedFfiGenerator::new(TrustTier::Formal);
    assert_eq!(generator.get_required_capability("read-sensor"), Some(Capability::IoReadSensor));
    assert_eq!(generator.get_required_capability("get-wall-clock"), Some(Capability::SysClock));
    assert_eq!(generator.get_host_function("read-sensor"), Some(HostFunction::ReadSensor));
    assert_eq!(generator.get_host_function("get-wall-clock"), Some(HostFunction::GetWallClockNs));
}

#[test]
fn mediated_call_code_checks_pushes_arguments_last_first_and_calls_host() {
    let generator = CapabilityMediatedFfiGenerator::new(TrustTier::Experimental);
    let args = vec![Value::Int(1), Value::Bool(true), Value::String("s".to_string()), Value::Symbol(3)];
    let code = generator
        .generate_capability_mediated_ffi_call("spawn-actor", &args, SourceLocation::default())
        .unwrap();
    assert_eq!(
        code,
        vec![
            OpCode::HasCap(0),
            OpCode::JmpIfFalse(2),
            OpCode::Symbol(3),
            OpCode::Nil,
            OpCode::Bool(true),
            OpCode::Int(1),
            OpCode::HostCall { cap_idx: 0, func_id: 3, args: 4 },
        ]
    );
}

#[test]
fn mediated_call_errors() {
    let generator = CapabilityMediatedFfiGenerator::new(TrustTier::Verified);
    match generator.generate_capability_mediated_ffi_call("nope", &[], SourceLocation::default()) {
        Err(CompilationError::FfiError(m)) => assert_eq!(m, "FFI function nope not found"),
        other => panic!("unexpected {:?}", other),
    }
    match generator.generate_capability_mediated_ffi_call("persist-read", &[], SourceLocation::default()) {
        Err(CompilationError::FfiError(m)) => {
            assert_eq!(m, "Capability IoPersist not granted for trust tier Verified")
        }
        other => panic!("unexpected {:?}", other),
    }
    let validator = CapabilityMediatedFfiValidator::new(TrustTier::Empirical);
    match validator.validate_ffi_calls(&["read-sensor".to_string(), "spawn-actor".to_string(), "zzz".to_string()]) {
        Err(CompilationError::FfiError(m)) => assert_eq!(
            m,
            "FFI call to spawn-actor requires capability SysCreateActor not granted for trust tier Empirical"
        ),
        other => panic!("unexpected {:?}", other),
    }
    assert_eq!(
        generator.generate_capability_error_handling(),
        vec![OpCode::Symbol(0), OpCode::Jmp(1)]
    );
}

#[test]
fn mediator_allows_exactly_what_the_tier_grants() {
    let config = create_capability_mediator_config(TrustTier::Empirical);
    assert!(mediate_capability_request(Capability::IoNetwork, &config).is_ok());
    assert_eq!(check_capability(&Capability::IoNetwork, &config), CapabilityCheckResult::Allowed);
    match mediate_capability_request(Capability::SysClock, &config) {
        Err(CompilationError::CapabilityError(v)) => {
            assert_eq!(v.required, Capability::SysClock);
            assert_eq!(v.tier, TrustTier::Empirical);
            assert_eq!(v.suggestion, "Capability SysClock not allowed for trust tier Empirical");
        }
        other => panic!("unexpected {:?}", other),
    }
}
