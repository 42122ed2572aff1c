use jue_world::ast::{AstNode, Literal};
use jue_world::bytecode_generation::compile_ast_to_bytecode;
use jue_world::compiler::{compile, CompilationResult};
use jue_world::core_proofs::Proof;
use jue_world::error::{CompilationError, SourceLocation};
use jue_world::integration::CoreExpr;
use jue_world::parser::parse;
use jue_world::physics::{Capability, OpCode, Value};
use jue_world::trust_tier::TrustTier;

fn run(source: &str, tier: TrustTier) -> Result<CompilationResult, CompilationError> {
    let floats: Vec<(String, u64)> = vec![];
    let kernel: Vec<(CoreExpr, Option<Proof>)> = vec![];
    compile(source, tier, 1000, 1024, &floats, &kernel)
}

#[test]
fn test_simple_ffi_call() {
    let jue_code = "
        (:empirical
            (ffi-call 'read-sensor))
    ";
    let result = run(jue_code, TrustTier::Empirical);
    assert!(result.is_ok());
    let compilation_result = result.unwrap();
    assert!(compilation_result.required_capabilities.contains(&Capability::IoReadSensor));
    assert!(compilation_result.granted_capabilities.contains(&Capability::IoReadSensor));
    assert!(!compilation_result.capability_audit.is_empty());
    assert!(compilation_result.bytecode.iter().any(|op| matches!(op, OpCode::HasCap(_))));
}

#[test]
fn test_capability_violation() {
    let jue_code = "
        (:formal
            (require-capability 'io-read-sensor)
            (ffi-call 'read-sensor))
    ";
    let result = run(jue_code, TrustTier::Formal);
    assert!(result.is_err());
}

#[test]
fn test_formal_tier_no_runtime_checks() {
    let jue_code = "
        (:formal
            (+ 1 2))
    ";
    let result = run(jue_code, TrustTier::Formal);
    assert!(result.is_ok());
    let compilation_result = result.unwrap();
    assert!(compilation_result.capability_audit.is_empty());
    assert!(compilation_result.bytecode.iter().all(|op| !matches!(op, OpCode::HasCap(_))));
}

#[test]
fn test_experimental_tier_sandboxed() {
    let jue_code = "
        (:experimental
            (ffi-call 'read-sensor))
    ";
    assert!(parse(jue_code).is_ok());
    let result = run(jue_code, TrustTier::Experimental);
    assert!(result.is_ok());
    let compilation_result = result.unwrap();
    assert!(compilation_result.sandboxed);
    assert!(!compilation_result.capability_audit.is_empty());
    assert!(compilation_result.bytecode.iter().any(|op| matches!(op, OpCode::HasCap(_))));
}

#[test]
fn test_ffi_capability_integration() {
    let jue_code = "
        (:empirical
            (ffi-call 'read-sensor))
    ";
    let result = run(jue_code, TrustTier::Empirical);
    assert!(result.is_ok());
    let compilation_result = result.unwrap();
    assert!(compilation_result.required_capabilities.contains(&Capability::IoReadSensor));
    assert!(!compilation_result.capability_audit.is_empty());
    assert_eq!(compilation_result.capability_audit[0].capability, Capability::IoReadSensor);
}

#[test]
fn test_ffi_capability_violation() {
    let jue_code = "
        (:formal
            (ffi-call 'read-sensor))
    ";
    let result = run(jue_code, TrustTier::Formal);
    assert!(result.is_err());
}

fn closures(result: &CompilationResult) -> usize {
    result.bytecode.iter().filter(|op| matches!(op, OpCode::MakeClosure(_, _))).count()
}

#[test]
fn test_recursive_function_compilation() {
    let source = r#"
        (let ((fact (lambda (n)
                      (if (<= n 1)
                          1
                          (* n (fact (- n 1)))))))
          (fact 5))
    "#;
    match run(source, TrustTier::Empirical) {
        Ok(compilation_result) => {
            assert!(!compilation_result.bytecode.is_empty() || compilation_result.constants.is_empty());
            assert_eq!(compilation_result.sandboxed, false);
            assert!(closures(&compilation_result) >= 1, "Expected MakeClosure opcode in recursive function compilation");
        }
        Err(e) => panic!("Recursive function compilation failed: {:?}", e),
    }
}

#[test]
fn test_mutual_recursion_compilation() {
    let source = r#"
        (let ((is-even? (lambda (n)
                          (if (= n 0)
                              true
                              (is-odd? (- n 1)))))
              (is-odd? (lambda (n)
                         (if (= n 0)
                             false
                             (is-even? (- n 1))))))
          (is-even? 4))
    "#;
    match run(source, TrustTier::Empirical) {
        Ok(compilation_result) => {
            assert!(!compilation_result.bytecode.is_empty() || compilation_result.constants.is_empty());
            assert!(closures(&compilation_result) >= 2, "Expected at least 2 closures for mutual recursion");
        }
        Err(e) => panic!("Mutual recursion compilation failed: {:?}", e),
    }
}

#[test]
fn test_nested_recursive_functions() {
    let source = r#"
        (let ((outer (lambda (x)
                       (let ((inner (lambda (y)
                                     (if (= y 0)
                                         x
                                         (inner (- y 1))))))
                         (inner x)))))
          (outer 5))
    "#;
    match run(source, TrustTier::Empirical) {
        Ok(compilation_result) => {
            assert!(!compilation_result.bytecode.is_empty() || compilation_result.constants.is_empty());
            assert!(closures(&compilation_result) >= 1, "Expected MakeClosure opcode in nested recursive functions");
        }
        Err(e) => panic!("Nested recursive functions compilation failed: {:?}", e),
    }
}

#[test]
fn test_simple_lambda_in_let() {
    let source = r#"
        (let ((f (lambda (x) (+ x 1))))
          (f 5))
    "#;
    match run(source, TrustTier::Empirical) {
        Ok(compilation_result) => {
            assert!(!compilation_result.bytecode.is_empty() || compilation_result.constants.is_empty());
            assert!(closures(&compilation_result) >= 1, "Expected MakeClosure opcode in lambda compilation");
        }
        Err(e) => panic!("Simple lambda in let compilation failed: {:?}", e),
    }
}

fn loc() -> SourceLocation {
    SourceLocation::default()
}

fn lit_int(n: i64) -> AstNode {
    AstNode::Literal(Literal::Int(n))
}

fn call(f: AstNode, args: Vec<AstNode>) -> AstNode {
    AstNode::Call { function: Box::new(f), arguments: args, location: loc() }
}

#[test]
fn trees_lower_to_stack_code() {
    let sum = call(AstNode::Symbol("+".to_string()), vec![lit_int(1), lit_int(2), lit_int(3)]);
    assert_eq!(
        compile_ast_to_bytecode(&sum).unwrap(),
        (vec![OpCode::Int(1), OpCode::Int(2), OpCode::Int(3), OpCode::Add, OpCode::Add], vec![])
    );
    let le = call(AstNode::Symbol("<=".to_string()), vec![lit_int(1), lit_int(2)]);
    assert_eq!(
        compile_ast_to_bytecode(&le).unwrap().0,
        vec![OpCode::Int(1), OpCode::Int(2), OpCode::Dup, OpCode::Dup, OpCode::Lt, OpCode::Swap, OpCode::Eq, OpCode::Add]
    );
    let binding = AstNode::Let {
        bindings: vec![("a".to_string(), lit_int(1)), ("b".to_string(), AstNode::Variable("a".to_string()))],
        body: Box::new(AstNode::Variable("b".to_string())),
        location: loc(),
    };
    assert_eq!(
        compile_ast_to_bytecode(&binding).unwrap().0,
        vec![
            OpCode::Int(0),
            OpCode::Int(0),
            OpCode::Int(1),
            OpCode::SetLocal(0),
            OpCode::GetLocal(0),
            OpCode::SetLocal(1),
            OpCode::GetLocal(1)
        ]
    );
    let applied = call(AstNode::Variable("f".to_string()), vec![AstNode::Symbol("s".to_string())]);
    assert_eq!(
        compile_ast_to_bytecode(&applied).unwrap(),
        (vec![OpCode::Int(0), OpCode::Symbol(0), OpCode::Call(1)], vec![Value::Symbol(0)])
    );
    let lambda = AstNode::Lambda {
        parameters: vec!["x".to_string()],
        body: Box::new(AstNode::Symbol("t".to_string())),
        location: loc(),
    };
    assert_eq!(
        compile_ast_to_bytecode(&lambda).unwrap(),
        (vec![OpCode::MakeClosure(1, 0)], vec![Value::Symbol(0), Value::Int(0)])
    );
    let conditional = AstNode::If {
        condition: Box::new(AstNode::Literal(Literal::Bool(true))),
        then_branch: Box::new(lit_int(1)),
        else_branch: Box::new(lit_int(2)),
        location: loc(),
    };
    assert_eq!(
        compile_ast_to_bytecode(&conditional).unwrap().0,
        vec![OpCode::Int(0), OpCode::JmpIfFalse(0), OpCode::Int(1), OpCode::Jmp(0), OpCode::Int(2)]
    );
}

#[test]
fn formal_programs_compile_to_core_terms_with_proofs() {
    let result = run("(:formal 7)", TrustTier::Formal).unwrap();
    assert_eq!(result.core_expr, Some(CoreExpr::Nat(7)));
    assert_eq!(result.core_proof, Some(Proof::Refl(CoreExpr::Nat(7))));
    assert_eq!(result.bytecode, vec![OpCode::Int(7)]);
    assert!(!result.sandboxed);
    assert_eq!(result.granted_capabilities, vec![Capability::MacroHygienic, Capability::ComptimeEval]);
}
