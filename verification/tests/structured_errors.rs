use jue_world::error::{CompilationError, SourceLocation};
use jue_world::physics::Capability;
use jue_world::structured_error::{
    CompilationPhase, ErrorFormat, ErrorReporter, ErrorSeverity, ErrorType, StructuredErrorBuilder,
    StructuredErrorHandler,
};
use jue_world::trust_tier::TrustTier;

fn at(line: usize, column: usize) -> SourceLocation {
    SourceLocation { line, column, offset: 0 }
}

#[test]
fn builder_sets_each_field() {
    let e = StructuredErrorBuilder::new(ErrorType::SecurityError, "bad".to_string())
        .with_severity(ErrorSeverity::Warning)
        .with_location(at(3, 4))
        .with_phase(CompilationPhase::Linking)
        .with_module("m")
        .with_function("f")
        .with_source_snippet("(f)")
        .with_recovery_suggestion("fix it")
        .with_related_capability(Capability::IoNetwork)
        .with_trust_tier(TrustTier::Empirical)
        .with_error_code("SEC")
        .with_stack_trace("trace")
        .build();
    assert_eq!(e.severity, ErrorSeverity::Warning);
    assert_eq!(e.context.phase, CompilationPhase::Linking);
    assert_eq!(e.context.trust_tier, TrustTier::Empirical);
    assert_eq!(e.context.source_snippet.as_deref(), Some("(f)"));
    assert_eq!(
        e.to_text(),
        "Warning [SEC]\nbad\nLocation: 3:4\nModule: m\nFunction: f\nPhase: Linking\nTrust Tier: Empirical\n\nRecovery suggestions:\n  - fix it\n\nRelated capabilities:\n  - IoNetwork\n\nStack trace:\ntrace\n"
    );
    let plain = StructuredErrorBuilder::new(ErrorType::SyntaxError, "x".to_string()).build();
    assert_eq!(plain.to_text(), "Error [GENERIC]\nx\nLocation: 0:0\nModule: unknown\nPhase: Parsing\nTrust Tier: Formal\n");
}

#[test]
fn handler_collects_and_reports() {
    let mut handler = StructuredErrorHandler::new(TrustTier::Verified);
    assert!(!handler.has_errors());
    assert!(handler.to_compilation_error().is_none());
    handler.set_current_module("core");
    handler.add_type_mismatch("Int", "Bool", at(1, 2));
    handler.add_capability_violation(Capability::SysClock, at(5, 6), "ask for it");
    handler.add_resource_limit_error("Step", 100, at(7, 8));
    handler.add_proof_generation_error("no witness", at(9, 1));
    assert!(handler.has_errors());
    assert!(!handler.has_critical_errors());
    let errors = handler.get_errors();
    assert_eq!(errors.len(), 4);
    assert_eq!(errors[0].message, "Type mismatch: expected Int, found Bool");
    assert_eq!(errors[1].message, "Capability SysClock required but not available");
    assert_eq!(errors[1].related_capabilities, vec![Capability::SysClock]);
    assert_eq!(errors[1].error_code, "CAP_VIOLATION");
    assert_eq!(errors[2].message, "Step limit exceeded: 100");
    assert_eq!(errors[3].message, "Proof generation failed: no witness");
    assert_eq!(errors[3].context.module, "core");
    match handler.to_compilation_error() {
        Some(CompilationError::InternalError(m)) => assert_eq!(m, "Type mismatch: expected Int, found Bool"),
        other => panic!("unexpected {:?}", other),
    }
    let mut critical = StructuredErrorHandler::new(TrustTier::Formal);
    critical.add_error(
        StructuredErrorBuilder::new(ErrorType::InternalError, "boom".to_string())
            .with_severity(ErrorSeverity::Critical)
            .build(),
    );
    assert!(critical.has_critical_errors());
    assert!(critical.has_errors());
    handler.clear_errors();
    assert!(!handler.has_errors());
}

#[test]
fn reporter_formats() {
    let empty = ErrorReporter::new(StructuredErrorHandler::new(TrustTier::Formal), ErrorFormat::Text);
    assert_eq!(empty.report_errors(), Some("No errors found".to_string()));
    let mut handler = StructuredErrorHandler::new(TrustTier::Formal);
    handler.add_proof_generation_error("p", at(2, 3));
    let compact = ErrorReporter::new(handler.clone(), ErrorFormat::Compact);
    assert_eq!(compact.report_errors(), Some("2:3 Error [PROOF_GEN] Proof generation failed: p\n".to_string()));
    let json = ErrorReporter::new(handler, ErrorFormat::Json);
    assert_eq!(json.report_errors(), None);
}
