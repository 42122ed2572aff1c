use jue_world::expression_parser::{number_literal, round_to_double};
use jue_world::ast::{AstNode, Literal};
use jue_world::capability_analysis;
use jue_world::capability_analyzer::{
    add_capabilities, add_capability, get_child_nodes, parse_capability, validate_ffi_call,
    validate_tier_capabilities,
};
use jue_world::error::{CompilationError, SourceLocation};
use jue_world::global_ffi_registry::{FfiFunction, FfiRegistry};
use jue_world::physics::{
    capability_name, host_function_id, kebab_to_capability, string_to_capability, Capability, HostFunction, Value,
};
use jue_world::runtime_checks::{check_execution_state, check_value, create_runtime_check_context, RuntimeCheckResult};
use jue_world::source_location;
use jue_world::trust_tier::TrustTier;
use jue_world::type_system::{Type, TypeCheckResult, TypeChecker};

fn loc() -> SourceLocation {
    SourceLocation::default()
}

fn var(n: &str) -> AstNode {
    AstNode::Variable(n.to_string())
}

#[test]
fn tiers_grant_growing_sets_of_capabilities() {
    assert_eq!(TrustTier::Formal.granted_capabilities(), vec![Capability::MacroHygienic, Capability::ComptimeEval]);
    assert_eq!(
        TrustTier::Verified.granted_capabilities(),
        vec![Capability::MetaGrant, Capability::MacroHygienic, Capability::ComptimeEval]
    );
    assert_eq!(TrustTier::Experimental.granted_capabilities().len(), 12);
    assert!(TrustTier::Empirical.allows_capability(&Capability::IoNetwork));
    assert!(!TrustTier::Empirical.allows_capability(&Capability::SysClock));
    assert!(!TrustTier::Formal.allows_capability(&Capability::MetaGrant));
    assert!(TrustTier::Formal.is_at_least(&TrustTier::Verified));
    assert!(!TrustTier::Experimental.is_at_least(&TrustTier::Empirical));
    assert!(TrustTier::Empirical.is_at_least(&TrustTier::Empirical));
}

#[test]
fn tier_validation_reports_the_first_capability_refused() {
    let caps = vec![Capability::MacroHygienic, Capability::IoNetwork, Capability::SysClock];
    assert!(validate_tier_capabilities(TrustTier::Experimental, &caps).is_ok());
    match validate_tier_capabilities(TrustTier::Formal, &caps) {
        Err(CompilationError::CapabilityError(v)) => {
            assert_eq!(v.required, Capability::IoNetwork);
            assert_eq!(v.tier, TrustTier::Formal);
            assert_eq!(v.suggestion, "This capability is not available in Formal tier. Consider using a higher trust tier.");
        }
        other => panic!("unexpected {:?}", other),
    }
    match capability_analysis::validate_tier_capabilities(TrustTier::Empirical, &caps) {
        Err(CompilationError::CapabilityError(v)) => {
            assert_eq!(v.required, Capability::SysClock);
            assert_eq!(v.suggestion, "Trust tier Empirical does not grant required capability SysClock");
        }
        other => panic!("unexpected {:?}", other),
    }
    assert!(capability_analysis::validate_tier_capabilities(TrustTier::Formal, &vec![]).is_ok());
}

#[test]
fn foreign_calls_are_checked_against_the_tier() {
    assert!(validate_ffi_call(TrustTier::Empirical, "read-sensor").is_ok());
    match validate_ffi_call(TrustTier::Formal, "get-wall-clock") {
        Err(CompilationError::CapabilityError(v)) => {
            assert_eq!(v.required, Capability::SysClock);
            assert_eq!(
                v.suggestion,
                "FFI call to get-wall-clock requires capability SysClock not granted for trust tier Formal. Consider using a higher trust tier."
            );
        }
        other => panic!("unexpected {:?}", other),
    }
    match validate_ffi_call(TrustTier::Experimental, "no-such") {
        Err(CompilationError::FfiError(m)) => assert_eq!(m, "FFI function no-such not found in capability mapping"),
        other => panic!("unexpected {:?}", other),
    }
}

#[test]
fn capability_names_are_read_both_ways() {
    assert_eq!(parse_capability("io-network").unwrap(), Capability::IoNetwork);
    match parse_capability("io-teleport") {
        Err(CompilationError::ParseError { message, .. }) => assert_eq!(message, "Unknown capability: io-teleport"),
        other => panic!("unexpected {:?}", other),
    }
    assert_eq!(kebab_to_capability("sys-create-actor"), Some(Capability::SysCreateActor));
    assert_eq!(kebab_to_capability("SysCreateActor"), None);
    assert_eq!(string_to_capability("SysCreateActor"), Some(Capability::SysCreateActor));
    assert_eq!(string_to_capability("sys-create-actor"), None);
    assert_eq!(capability_name(Capability::IoPersist), "IoPersist");
    assert_eq!(host_function_id(HostFunction::ReadSensor), 0);
    assert_eq!(host_function_id(HostFunction::PersistRead), 8);
}

#[test]
fn capability_lists_keep_each_capability_once() {
    let mut caps = vec![Capability::IoNetwork];
    add_capability(&mut caps, Capability::IoNetwork);
    assert_eq!(caps, vec![Capability::IoNetwork]);
    add_capability(&mut caps, Capability::SysClock);
    assert_eq!(caps, vec![Capability::IoNetwork, Capability::SysClock]);
    add_capabilities(&mut caps, &vec![Capability::SysClock, Capability::MetaGrant, Capability::MetaGrant]);
    assert_eq!(caps, vec![Capability::IoNetwork, Capability::SysClock, Capability::MetaGrant]);
}

#[test]
fn child_nodes_are_the_direct_sub_expressions() {
    let call = AstNode::Call {
        function: Box::new(var("f")),
        arguments: vec![var("a"), AstNode::Literal(Literal::Int(1))],
        location: loc(),
    };
    let children = get_child_nodes(&call);
    assert_eq!(children.len(), 3);
    assert_eq!(*children[0], var("f"));
    assert_eq!(*children[2], AstNode::Literal(Literal::Int(1)));
    let binding = AstNode::Let {
        bindings: vec![("x".to_string(), var("a")), ("y".to_string(), var("b"))],
        body: Box::new(var("x")),
        location: loc(),
    };
    let children = get_child_nodes(&binding);
    assert_eq!(children.len(), 3);
    assert_eq!(*children[1], var("b"));
    assert_eq!(*children[2], var("x"));
    assert!(get_child_nodes(&var("z")).is_empty());
}

#[test]
fn runtime_checks_name_the_first_limit_exceeded() {
    let context = create_runtime_check_context();
    assert_eq!(context.max_stack_depth, 1000);
    assert_eq!(context.max_memory_usage, 1048576);
    assert_eq!(context.max_execution_steps, 10000);
    assert!(matches!(check_value(&Value::Int(3), &context), RuntimeCheckResult::Pass));
    assert!(matches!(check_execution_state(1000, 1048576, 10000, &context), RuntimeCheckResult::Pass));
    match check_execution_state(1001, 2000000, 20000, &context) {
        RuntimeCheckResult::Fail(CompilationError::ComptimeError(m)) => assert_eq!(m, "Stack depth 1001 exceeds limit 1000"),
        _ => panic!("stack depth not reported"),
    }
    match check_execution_state(5, 2000000, 20000, &context) {
        RuntimeCheckResult::Fail(CompilationError::ComptimeError(m)) => {
            assert_eq!(m, "Memory usage 2000000 exceeds limit 1048576")
        }
        _ => panic!("memory not reported"),
    }
    match check_execution_state(5, 5, 10001, &context) {
        RuntimeCheckResult::Fail(CompilationError::ComptimeError(m)) => assert_eq!(m, "Execution steps 10001 exceeds limit 10000"),
        _ => panic!("steps not reported"),
    }
}

#[test]
fn registry_replaces_functions_by_name_and_numbers_capabilities() {
    let function = |name: &str, cap: Option<Capability>| FfiFunction {
        name: name.to_string(),
        host_function: HostFunction::ReadSensor,
        required_capability: cap,
        parameter_types: vec![],
        return_type: "Int".to_string(),
        documentation: String::new(),
        location: loc(),
    };
    let mut registry = FfiRegistry::new();
    registry.register_function(function("a", Some(Capability::IoNetwork)));
    registry.register_function(function("b", None));
    registry.register_function(function("a", Some(Capability::IoNetwork)));
    assert_eq!(registry.functions.len(), 2);
    assert_eq!(registry.capability_indices, vec![(Some(Capability::IoNetwork), 0), (None, 1)]);
    assert_eq!(registry.get_capability_index(&None), Some(1));
    assert_eq!(registry.get_capability_index(&Some(Capability::SysClock)), None);
    assert_eq!(registry.get_ffi_index("a"), Some(0));
    assert!(registry.find_function("b").is_some());
}

#[test]
fn generated_locations_and_unchecked_types() {
    let here = source_location::SourceLocation::generated();
    assert_eq!((here.line, here.column, here.file), (0, 0, "generated"));
    assert!(matches!(TypeChecker::new().check_expression(), TypeCheckResult::Success(Type::Unknown)));
}

#[test]
fn integer_literals_are_read_as_doubles() {
    assert_eq!(number_literal("42"), AstNode::Literal(Literal::Int(42)));
    assert_eq!(number_literal("7.00"), AstNode::Literal(Literal::Int(7)));
    assert_eq!(number_literal("9007199254740992"), AstNode::Literal(Literal::Int(9007199254740992)));
    assert_eq!(number_literal("9007199254740993"), AstNode::Literal(Literal::Int(9007199254740992)));
    assert_eq!(number_literal("9007199254740995"), AstNode::Literal(Literal::Int(9007199254740996)));
    assert_eq!(number_literal("9223372036854775000"), AstNode::Literal(Literal::Int(9223372036854774784)));
    assert_eq!(number_literal("9223372036854775807"), AstNode::Literal(Literal::Int(i64::MAX)));
    assert_eq!(number_literal("123456789012345678901234567890"), AstNode::Literal(Literal::Int(i64::MAX)));
    assert_eq!(round_to_double(9007199254740993), 9007199254740993f64 as u64);
    assert_eq!(round_to_double(1234567890123456789), 1234567890123456789f64 as u64);
    assert_eq!(round_to_double(12345), 12345);
}
