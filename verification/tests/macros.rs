use jue_world::ast::{AstNode, Literal};
use jue_world::error::{CompilationError, SourceLocation};
use jue_world::macro_expander::{create_macro_expansion_context, define_macro, expand_macro, expand_macros as expand_defined};
use jue_world::macro_ffi::{check_macro_ffi_permission, create_macro_ffi_context, process_macro_ffi_call};
use jue_world::macro_system::{expand_macros, HygieneScope, MacroDefinition, MacroExpander};
use jue_world::physics::Capability;
use jue_world::trust_tier::TrustTier;

fn loc() -> SourceLocation {
    SourceLocation::default()
}

fn var(n: &str) -> AstNode {
    AstNode::Variable(n.to_string())
}

fn lit_int(i: i64) -> AstNode {
    AstNode::Literal(Literal::Int(i))
}

fn call(f: AstNode, args: Vec<AstNode>) -> AstNode {
    AstNode::Call { function: Box::new(f), arguments: args, location: loc() }
}

fn twice_macro(tier: TrustTier, caps: Vec<Capability>) -> MacroDefinition {
    MacroDefinition {
        name: "twice".to_string(),
        parameters: vec!["x".to_string()],
        body: call(AstNode::Symbol("+".to_string()), vec![var("x"), var("x")]),
        required_capabilities: caps,
        declared_tier: tier,
        is_hygienic: true,
        location: loc(),
    }
}

#[test]
fn hygiene_scope_levels_and_captures() {
    let mut scope = HygieneScope::new();
    assert_eq!(scope.level, 0);
    scope.exit();
    assert_eq!(scope.level, 0);
    scope.enter();
    scope.enter();
    scope.exit();
    assert_eq!(scope.level, 1);
    scope.capture("x".to_string());
    assert!(scope.is_captured("x"));
    assert!(!scope.is_captured("y"));
}

#[test]
fn macro_use_is_replaced_by_substituted_body() {
    let mut expander = MacroExpander::new(TrustTier::Formal);
    expander.add_macro(twice_macro(TrustTier::Formal, vec![Capability::MacroHygienic]));
    let ast = call(
        var("f"),
        vec![AstNode::MacroExpansion { name: "twice".to_string(), arguments: vec![lit_int(3)], location: loc() }],
    );
    let expanded = expander.expand_all(ast).unwrap();
    assert_eq!(expanded, call(var("f"), vec![call(AstNode::Symbol("+".to_string()), vec![lit_int(3), lit_int(3)])]));
    assert_eq!(expander.context.expansion_capabilities, vec![Capability::MacroHygienic]);
}

#[test]
fn macro_expansion_errors() {
    let mut expander = MacroExpander::new(TrustTier::Experimental);
    match expander.expand_macro("missing", vec![], loc()) {
        Err(CompilationError::MacroExpansionError(m)) => assert_eq!(m, "Macro missing not found"),
        other => panic!("unexpected {:?}", other),
    }
    expander.add_macro(twice_macro(TrustTier::Formal, vec![]));
    match expander.expand_macro("twice", vec![lit_int(1)], loc()) {
        Err(CompilationError::MacroExpansionError(m)) => {
            assert_eq!(m, "Macro twice requires tier Formal, but current tier is Experimental")
        }
        other => panic!("unexpected {:?}", other),
    }

    let mut formal = MacroExpander::new(TrustTier::Formal);
    formal.add_macro(twice_macro(TrustTier::Formal, vec![Capability::SysClock]));
    match formal.expand_macro("twice", vec![lit_int(1)], loc()) {
        Err(CompilationError::CapabilityError(v)) => {
            assert_eq!(v.required, Capability::SysClock);
            assert_eq!(v.tier, TrustTier::Formal);
            assert_eq!(
                v.suggestion,
                "Macro twice requires capability SysClock but it's not available in the current context"
            );
        }
        other => panic!("unexpected {:?}", other),
    }

    let mut formal = MacroExpander::new(TrustTier::Formal);
    formal.add_macro(twice_macro(TrustTier::Formal, vec![]));
    match formal.expand_macro("twice", vec![lit_int(1), lit_int(2)], loc()) {
        Err(CompilationError::MacroExpansionError(m)) => assert_eq!(m, "Macro twice expects 1 arguments, got 2"),
        other => panic!("unexpected {:?}", other),
    }
}

#[test]
fn expanding_a_tree_without_macros_gives_it_back() {
    let ast = call(var("g"), vec![lit_int(1), AstNode::Symbol("s".to_string())]);
    assert_eq!(expand_macros(ast, TrustTier::Empirical).unwrap(), call(var("g"), vec![lit_int(1), AstNode::Symbol("s".to_string())]));
    let with_use = AstNode::MacroExpansion { name: "m".to_string(), arguments: vec![], location: loc() };
    assert!(expand_macros(with_use, TrustTier::Empirical).is_err());
}

#[test]
fn defined_macros_expand_until_no_use_is_left() {
    let mut context = create_macro_expansion_context(TrustTier::Empirical);
    define_macro(&mut context, "id".to_string(), vec!["x".to_string()], var("x"), TrustTier::Experimental).unwrap();
    define_macro(
        &mut context,
        "wrap".to_string(),
        vec!["y".to_string()],
        AstNode::MacroExpansion { name: "id".to_string(), arguments: vec![var("y")], location: loc() },
        TrustTier::Empirical,
    )
    .unwrap();
    let ast = AstNode::MacroExpansion { name: "wrap".to_string(), arguments: vec![lit_int(7)], location: loc() };
    // Substitution does not enter the arguments of a macro use in a body,
    // so the inner use sees the parameter itself.
    assert_eq!(expand_defined(&ast, &context).unwrap(), var("y"));
    let direct = AstNode::MacroExpansion { name: "id".to_string(), arguments: vec![lit_int(7)], location: loc() };
    assert_eq!(expand_defined(&call(var("k"), vec![direct]), &context).unwrap(), call(var("k"), vec![lit_int(7)]));

    define_macro(&mut context, "id".to_string(), vec!["x".to_string()], lit_int(0), TrustTier::Empirical).unwrap();
    assert_eq!(expand_macro(&context, "id", vec![lit_int(5)]).unwrap(), lit_int(0));

    match define_macro(&mut context, "strict".to_string(), vec![], lit_int(1), TrustTier::Formal) {
        Err(CompilationError::CapabilityError(v)) => {
            assert_eq!(v.required, Capability::MacroHygienic);
            assert_eq!(v.suggestion, "Macro requires trust tier Formal but current tier is Empirical");
        }
        other => panic!("unexpected {:?}", other),
    }
    match expand_macro(&context, "id", vec![]) {
        Err(CompilationError::ParseError { message, .. }) => assert_eq!(message, "Macro id expects 1 arguments but got 0"),
        other => panic!("unexpected {:?}", other),
    }
    match expand_macro(&context, "none", vec![]) {
        Err(CompilationError::ParseError { message, .. }) => assert_eq!(message, "Macro none not found"),
        other => panic!("unexpected {:?}", other),
    }
}

#[test]
fn macro_ffi_permissions_follow_the_tier() {
    let context = create_macro_ffi_context(TrustTier::Formal);
    assert_eq!(context.allowed_ffi, vec!["MacroHygienic".to_string(), "ComptimeEval".to_string()]);
    assert!(check_macro_ffi_permission("ComptimeEval", &context).is_ok());
    match check_macro_ffi_permission("IoNetwork", &context) {
        Err(CompilationError::FfiError(m)) => {
            assert_eq!(m, "FFI IoNetwork not allowed in macro context for trust tier Formal")
        }
        other => panic!("unexpected {:?}", other),
    }
    assert_eq!(process_macro_ffi_call("MacroHygienic", vec![], &context).unwrap(), AstNode::Literal(Literal::Nil));
}
