use jue_world::ast::{AstNode, Literal, Type};
use jue_world::core_proofs::{compile_ast_to_core_expr_with_proofs, Proof};
use jue_world::core_compilation::{compile_ast_to_core_expr, compile_core_expr_to_bytecode, float_literal_texts};
use jue_world::error::{CompilationError, SourceLocation};
use jue_world::escape_analysis::{AnalysisContext, EscapeAnalysis, EscapeStatus, FunctionId};
use jue_world::integration::{create_physics_integration_context, execute_physics_bytecode, integrate_with_physics, CoreExpr, CoreWorldCompiler};
use jue_world::physics::{OpCode, Value};
use jue_world::trust_tier::TrustTier;
use jue_world::variable_references::references_variable;

fn loc() -> SourceLocation {
    SourceLocation::default()
}

fn var(n: &str) -> AstNode {
    AstNode::Variable(n.to_string())
}

fn call(f: AstNode, args: Vec<AstNode>) -> AstNode {
    AstNode::Call { function: Box::new(f), arguments: args, location: loc() }
}

fn lambda(params: &[&str], body: AstNode) -> AstNode {
    AstNode::Lambda { parameters: params.iter().map(|p| p.to_string()).collect(), body: Box::new(body), location: loc() }
}

#[test]
fn free_variables_respect_lambda_and_let_scopes() {
    let analysis = EscapeAnalysis::new();
    let x = analysis.get_variable_index("x");
    let y = analysis.get_variable_index("y");
    let expr = call(var("x"), vec![lambda(&["y"], call(var("y"), vec![var("x")]))]);
    assert_eq!(analysis.find_free_variables(&expr), vec![x, x]);
    let let_expr = AstNode::Let {
        bindings: vec![("y".to_string(), var("y"))],
        body: Box::new(var("y")),
        location: loc(),
    };
    assert!(analysis.find_free_variables(&let_expr).is_empty());
    assert_eq!(analysis.find_free_variables(&var("y")), vec![y]);
}

#[test]
fn lambda_records_function_and_escaping_variables() {
    let mut analysis = EscapeAnalysis::new();
    let mut context = AnalysisContext::new();
    context.current_function = Some(FunctionId(7));
    context.max_variable = 3;
    let expr = AstNode::Let {
        bindings: vec![("x".to_string(), AstNode::Literal(Literal::Int(1)))],
        body: Box::new(lambda(&["y"], call(var("x"), vec![var("y")]))),
        location: loc(),
    };
    analysis.analyze_expression(&expr, &mut context);
    assert!(context.errors.is_empty());
    let x = analysis.get_variable_index("x");
    let y = analysis.get_variable_index("y");
    assert!(analysis.escaping_vars.contains(&x));
    assert!(!analysis.escaping_vars.contains(&y));
    let info = analysis.function_info.get(&7).unwrap();
    assert_eq!(info.local_count, 1);
    assert_eq!(info.free_variables, vec![x]);
    assert_eq!(info.escape_info.len(), 3);
    assert!(analysis.variable_environments.is_empty());
}

#[test]
fn a_parameter_used_in_its_own_lambda_does_not_escape() {
    let mut analysis = EscapeAnalysis::new();
    let mut context = AnalysisContext::new();
    analysis.analyze_expression(&lambda(&["x"], var("x")), &mut context);
    assert!(analysis.escaping_vars.is_empty());
    assert!(context.errors.is_empty());
}

#[test]
fn unbound_and_unsupported_nodes_are_reported() {
    let mut analysis = EscapeAnalysis::new();
    let mut context = AnalysisContext::new();
    analysis.analyze_expression(&var("z"), &mut context);
    let z = analysis.get_variable_index("z");
    match &context.errors[0] {
        CompilationError::ParseError { message, .. } => assert_eq!(message, &format!("Variable not found: {}", z)),
        other => panic!("unexpected {:?}", other),
    }
    let define = AstNode::Define { name: "d".to_string(), value: Box::new(AstNode::Literal(Literal::Nil)), location: loc() };
    analysis.analyze_expression(&define, &mut context);
    match &context.errors[1] {
        CompilationError::ParseError { message, .. } => {
            assert!(message.starts_with("Unsupported expression type in escape analysis: "))
        }
        other => panic!("unexpected {:?}", other),
    }
    assert_eq!(EscapeStatus::Escaping, EscapeStatus::Escaping);
}

#[test]
fn trees_print_in_surface_syntax() {
    let ast = AstNode::Let {
        bindings: vec![("a".to_string(), AstNode::Literal(Literal::Int(-12)))],
        body: Box::new(AstNode::If {
            condition: Box::new(AstNode::Literal(Literal::Bool(true))),
            then_branch: Box::new(call(AstNode::Symbol("+".to_string()), vec![var("a"), AstNode::Literal(Literal::String("s".to_string()))])),
            else_branch: Box::new(AstNode::FfiCall { function: "read-sensor".to_string(), arguments: vec![var("a")], location: loc() }),
            location: loc(),
        }),
        location: loc(),
    };
    assert_eq!(ast.to_string(), "(let ((a -12)) (if true ('+ a \"s\") (ffi-call read-sensor a )))");
    let l = lambda(&["x", "y"], AstNode::List { elements: vec![var("x"), AstNode::Literal(Literal::Nil)], location: loc() });
    assert_eq!(l.to_string(), "(lambda (x y) (list x nil))");
    let t = Type::Function {
        parameters: vec![Type::Basic("Int".to_string()), Type::Variable("a".to_string())],
        return_type: Box::new(Type::CapabilityType { base_type: Box::new(Type::Basic("Bool".to_string())), capabilities: vec!["io".to_string(), "net".to_string()] }),
    };
    assert_eq!(t.to_string(), "(Int a -> Bool [io net])");
    assert_eq!(Literal::Int(i64::MIN).to_string(), "-9223372036854775808");
    assert_eq!(AstNode::RequireCapability { capability: "io-persist".to_string(), location: loc() }.to_string(), "(require-capability 'io-persist )");
}

#[test]
fn copies_are_equal() {
    let ast = call(var("f"), vec![lambda(&["x"], var("x")), AstNode::Literal(Literal::Float("1.5".to_string()))]);
    assert_eq!(ast.deep_clone(), ast);
}

#[test]
fn references_respect_shadowing() {
    let body = call(var("fact"), vec![var("n")]);
    assert!(references_variable(&body, "fact"));
    assert!(!references_variable(&lambda(&["fact"], body), "fact"));
    let shadowing_let = AstNode::Let {
        bindings: vec![("fact".to_string(), AstNode::Literal(Literal::Nil))],
        body: Box::new(var("fact")),
        location: loc(),
    };
    assert!(!references_variable(&shadowing_let, "fact"));
    assert!(references_variable(&AstNode::Symbol("fact".to_string()), "fact"));
}

#[test]
fn core_terms_apply_and_abstract() {
    let compiler = CoreWorldCompiler::new();
    let ast = call(lambda(&["x", "y"], var("x")), vec![AstNode::Literal(Literal::Int(1)), var("z")]);
    let expected = CoreExpr::App(
        Box::new(CoreExpr::App(
            Box::new(CoreExpr::Lam(Box::new(CoreExpr::Lam(Box::new(CoreExpr::Var(0)))))),
            Box::new(CoreExpr::Var(0)),
        )),
        Box::new(CoreExpr::Var(0)),
    );
    assert_eq!(compiler.compile_to_core(&ast).unwrap(), expected);
    match compiler.compile_to_core(&AstNode::Symbol("s".to_string())) {
        Err(CompilationError::InternalError(m)) => {
            assert!(m.starts_with("Unsupported AST node for Core-World compilation: "))
        }
        other => panic!("unexpected {:?}", other),
    }
}

fn lit(l: Literal) -> AstNode {
    AstNode::Literal(l)
}

fn core_nat(n: u64) -> CoreExpr {
    CoreExpr::Nat(n)
}

#[test]
fn literals_translate_to_natural_numbers() {
    let table = vec![("2.5".to_string(), 2u64), ("9.75".to_string(), 9u64)];
    let t = |n: AstNode| compile_ast_to_core_expr(&n, &table).unwrap();
    assert_eq!(t(lit(Literal::Int(42))), core_nat(42));
    assert_eq!(t(lit(Literal::Int(-1))), core_nat(u64::MAX));
    assert_eq!(t(lit(Literal::Bool(true))), core_nat(1));
    assert_eq!(t(lit(Literal::Bool(false))), core_nat(0));
    assert_eq!(t(lit(Literal::Nil)), core_nat(0));
    assert_eq!(t(lit(Literal::Float("9.75".to_string()))), core_nat(9));
    assert_eq!(t(lit(Literal::Float("1.5".to_string()))), core_nat(0));
    assert_eq!(t(lit(Literal::String("h\u{e9}llo".to_string()))), core_nat(6));
    assert_eq!(t(var("x")), CoreExpr::Var(0));
    assert_eq!(t(AstNode::Symbol("s".to_string())), CoreExpr::Var(0));
    assert_eq!(t(AstNode::RequireCapability { capability: "io-network".to_string(), location: loc() }), core_nat(0));
}

#[test]
fn forms_translate_to_applications_and_abstractions() {
    let table: Vec<(String, u64)> = vec![];
    let app = |f: CoreExpr, a: CoreExpr| CoreExpr::App(Box::new(f), Box::new(a));
    let lam = |b: CoreExpr| CoreExpr::Lam(Box::new(b));
    let call_term = compile_ast_to_core_expr(&call(var("f"), vec![lit(Literal::Int(1)), lit(Literal::Int(2))]), &table);
    assert_eq!(call_term.unwrap(), app(app(CoreExpr::Var(0), core_nat(1)), core_nat(2)));
    let let_form = AstNode::Let {
        bindings: vec![("a".to_string(), lit(Literal::Int(1))), ("b".to_string(), lit(Literal::Int(2)))],
        body: Box::new(var("a")),
        location: loc(),
    };
    assert_eq!(compile_ast_to_core_expr(&let_form, &table).unwrap(), app(app(lam(lam(CoreExpr::Var(0))), core_nat(1)), core_nat(2)));
    let if_form = AstNode::If {
        condition: Box::new(lit(Literal::Bool(true))),
        then_branch: Box::new(lit(Literal::Int(5))),
        else_branch: Box::new(lit(Literal::Int(6))),
        location: loc(),
    };
    assert_eq!(compile_ast_to_core_expr(&if_form, &table).unwrap(), core_nat(5));
    let pair = AstNode::Cons { car: Box::new(lit(Literal::Int(1))), cdr: Box::new(lit(Literal::Nil)), location: loc() };
    assert_eq!(compile_ast_to_core_expr(&pair, &table).unwrap(), CoreExpr::Pair(Box::new(core_nat(1)), Box::new(core_nat(0))));
    let compare = call(AstNode::Symbol(">".to_string()), vec![var("x"), lit(Literal::Int(3))]);
    assert_eq!(compile_ast_to_core_expr(&compare, &table).unwrap(), core_nat(0));
}

#[test]
fn comparisons_need_two_arguments() {
    let table: Vec<(String, u64)> = vec![];
    let compare = call(AstNode::Symbol("<".to_string()), vec![var("x")]);
    match compile_ast_to_core_expr(&compare, &table) {
        Err(CompilationError::ParseError { message, location }) => {
            assert_eq!(message, "< expects exactly 2 arguments, got 1");
            assert_eq!(location, SourceLocation::default());
        }
        other => panic!("unexpected {:?}", other),
    }
    let nested = AstNode::Lambda {
        parameters: vec!["x".to_string()],
        body: Box::new(call(AstNode::Symbol("=".to_string()), vec![])),
        location: loc(),
    };
    match compile_ast_to_core_expr(&nested, &table) {
        Err(CompilationError::ParseError { message, .. }) => assert_eq!(message, "= expects exactly 2 arguments, got 0"),
        other => panic!("unexpected {:?}", other),
    }
}

#[test]
fn float_texts_are_listed_in_source_order() {
    let tree = call(
        var("f"),
        vec![lit(Literal::Float("1.5".to_string())), lit(Literal::Int(2)), lit(Literal::Float("0.25".to_string()))],
    );
    assert_eq!(float_literal_texts(&tree), vec!["1.5".to_string(), "0.25".to_string()]);
    assert!(float_literal_texts(&var("x")).is_empty());
}

fn refl(e: CoreExpr) -> Proof {
    Proof::Refl(e)
}

fn cong_app(f: Proof, a: Proof) -> Proof {
    Proof::CongApp { proof_f: Box::new(f), proof_a: Box::new(a) }
}

fn trans(a: Proof, b: Proof) -> Proof {
    Proof::Trans { proof_a: Box::new(a), proof_b: Box::new(b) }
}

#[test]
fn proofs_are_built_beside_the_terms() {
    let floats: Vec<(String, u64)> = vec![];
    let kernel: Vec<(CoreExpr, Option<Proof>)> = vec![];
    let app = |f: CoreExpr, a: CoreExpr| CoreExpr::App(Box::new(f), Box::new(a));
    assert_eq!(
        compile_ast_to_core_expr_with_proofs(&lit(Literal::Int(5)), &floats, &kernel).unwrap(),
        (core_nat(5), Some(refl(core_nat(5))))
    );
    let (term, proof) =
        compile_ast_to_core_expr_with_proofs(&call(var("f"), vec![lit(Literal::Int(1))]), &floats, &kernel).unwrap();
    assert_eq!(term, app(CoreExpr::Var(0), core_nat(1)));
    assert_eq!(proof, Some(trans(refl(CoreExpr::Var(0)), cong_app(refl(CoreExpr::Var(0)), refl(core_nat(1))))));
    let (term, proof) = compile_ast_to_core_expr_with_proofs(&lambda(&["x"], var("x")), &floats, &kernel).unwrap();
    assert_eq!(term, CoreExpr::Lam(Box::new(CoreExpr::Var(0))));
    assert_eq!(proof, Some(Proof::CongLam { proof_b: Box::new(refl(CoreExpr::Var(0))) }));
    let compare = call(AstNode::Symbol(">".to_string()), vec![var("x"), lit(Literal::Int(3))]);
    assert_eq!(compile_ast_to_core_expr_with_proofs(&compare, &floats, &kernel).unwrap(), (core_nat(0), None));
    match compile_ast_to_core_expr_with_proofs(&call(AstNode::Symbol("=".to_string()), vec![]), &floats, &kernel) {
        Err(CompilationError::ParseError { message, .. }) => assert_eq!(message, "= expects exactly 2 arguments, got 0"),
        other => panic!("unexpected {:?}", other),
    }
}

#[test]
fn missing_proofs_come_from_the_kernel_table() {
    let floats: Vec<(String, u64)> = vec![];
    let ffi = || AstNode::FfiCall { function: "read-sensor".to_string(), arguments: vec![], location: loc() };
    let app = CoreExpr::App(Box::new(CoreExpr::Var(0)), Box::new(core_nat(0)));
    let tree = call(var("f"), vec![ffi()]);
    let empty: Vec<(CoreExpr, Option<Proof>)> = vec![];
    let (term, proof) = compile_ast_to_core_expr_with_proofs(&tree, &floats, &empty).unwrap();
    assert_eq!(term, CoreExpr::App(Box::new(CoreExpr::Var(0)), Box::new(core_nat(0))));
    assert_eq!(proof, Some(refl(CoreExpr::Var(0))));
    let kernel = vec![(core_nat(9), None), (app, Some(refl(core_nat(7))))];
    let (_, proof) = compile_ast_to_core_expr_with_proofs(&tree, &floats, &kernel).unwrap();
    assert_eq!(proof, Some(trans(refl(CoreExpr::Var(0)), refl(core_nat(7)))));
    let pair = AstNode::Cons { car: Box::new(lit(Literal::Int(1))), cdr: Box::new(ffi()), location: loc() };
    let pair_term = CoreExpr::Pair(Box::new(core_nat(1)), Box::new(core_nat(0)));
    let kernel = vec![(pair_term, Some(refl(core_nat(2))))];
    assert_eq!(
        compile_ast_to_core_expr_with_proofs(&pair, &floats, &kernel).unwrap(),
        (CoreExpr::Pair(Box::new(core_nat(1)), Box::new(core_nat(0))), Some(refl(core_nat(2))))
    );
}

#[test]
fn core_terms_lower_to_stack_code() {
    let term = CoreExpr::App(
        Box::new(CoreExpr::Lam(Box::new(CoreExpr::Var(0)))),
        Box::new(CoreExpr::Pair(Box::new(CoreExpr::Nat(7)), Box::new(CoreExpr::Nat(u64::MAX)))),
    );
    let (code, constants) = compile_core_expr_to_bytecode(&term);
    assert_eq!(code, vec![OpCode::Int(0), OpCode::Int(7), OpCode::Int(-1), OpCode::Cons, OpCode::Add]);
    assert!(constants.is_empty());
    let (code, _) = compile_core_expr_to_bytecode(&CoreExpr::Var(3));
    assert_eq!(code, vec![OpCode::Int(0)]);
}

#[test]
fn physics_integration_context_names_granted_capabilities() {
    let context = create_physics_integration_context(TrustTier::Verified);
    assert_eq!(context.capabilities, vec!["MetaGrant".to_string(), "MacroHygienic".to_string(), "ComptimeEval".to_string()]);
    assert!(integrate_with_physics(&var("x"), &context).unwrap().is_empty());
    assert_eq!(execute_physics_bytecode(vec![], &context).unwrap(), Value::Nil);
}
