use jue_world::ast::{AstNode, Literal};
use jue_world::environment::CompilationEnvironment;
use jue_world::error::{CompilationError, SourceLocation, SourceMap};
use jue_world::parser::parse;
use jue_world::ffi_call_generator::FfiCallGenerator;
use jue_world::physics::{Capability, OpCode, Value};
use jue_world::physics_compiler::{compile_to_physics_world, PhysicsWorldCompiler};
use jue_world::standard_functions::create_standard_ffi_registry;
use jue_world::token::Token;
use jue_world::tokenizer::Tokenizer;
use jue_world::trust_tier::TrustTier;

fn loc() -> SourceLocation {
    SourceLocation::default()
}

#[test]
fn parses_calls_forms_and_literals() {
    assert_eq!(
        parse("(+ 1 2)").unwrap(),
        AstNode::Call {
            function: Box::new(AstNode::Symbol("+".to_string())),
            arguments: vec![AstNode::Literal(Literal::Int(1)), AstNode::Literal(Literal::Int(2))],
            location: loc(),
        }
    );
    assert_eq!(
        parse("(:empirical (ffi-call 'read-sensor))").unwrap(),
        AstNode::TrustTier {
            tier: ":empirical".to_string(),
            expression: Box::new(AstNode::FfiCall { function: "read-sensor".to_string(), arguments: vec![], location: loc() }),
            location: loc(),
        }
    );
    assert_eq!(
        parse("(lambda (x) x)").unwrap(),
        AstNode::Lambda { parameters: vec!["x".to_string()], body: Box::new(AstNode::Variable("x".to_string())), location: loc() }
    );
    assert_eq!(
        parse("(let ((a 1)) a)").unwrap(),
        AstNode::Let {
            bindings: vec![("a".to_string(), AstNode::Literal(Literal::Int(1)))],
            body: Box::new(AstNode::Variable("a".to_string())),
            location: loc(),
        }
    );
    assert_eq!(parse("42").unwrap(), AstNode::Literal(Literal::Int(42)));
    assert_eq!(parse("\"hi\"").unwrap(), AstNode::Literal(Literal::String("hi".to_string())));
    assert_eq!(
        parse("(if true 1 2.5)").unwrap(),
        AstNode::If {
            condition: Box::new(AstNode::Literal(Literal::Bool(true))),
            then_branch: Box::new(AstNode::Literal(Literal::Int(1))),
            else_branch: Box::new(AstNode::Literal(Literal::Float("2.5".to_string()))),
            location: loc(),
        }
    );
    assert_eq!(
        parse("(require-capability 'io-read-sensor)").unwrap(),
        AstNode::RequireCapability { capability: "io-read-sensor".to_string(), location: loc() }
    );
}

#[test]
fn parse_errors_name_the_problem_and_place() {
    match parse(")") {
        Err(CompilationError::ParseError { message, .. }) => assert_eq!(message, "Unexpected token: CloseParen"),
        other => panic!("unexpected {:?}", other),
    }
    match parse("(1") {
        Err(CompilationError::ParseError { message, .. }) => assert_eq!(message, "Expected function name"),
        other => panic!("unexpected {:?}", other),
    }
    match parse("\"abc") {
        Err(CompilationError::ParseError { message, location }) => {
            assert_eq!(message, "Unterminated string");
            assert_eq!(location, SourceLocation { line: 1, column: 5, offset: 4 });
        }
        other => panic!("unexpected {:?}", other),
    }
    match parse("#") {
        Err(CompilationError::ParseError { message, location }) => {
            assert_eq!(message, "Unexpected character: '#'");
            assert_eq!(location, SourceLocation { line: 1, column: 1, offset: 0 });
        }
        other => panic!("unexpected {:?}", other),
    }
}

#[test]
fn tokenizer_splits_punctuation_words_numbers_and_strings() {
    let mut t = Tokenizer::new("(foo 12 3.5 \"s\") x_1".to_string(), "f");
    assert_eq!(
        t.tokenize(),
        vec![
            Token::OpenParen,
            Token::Symbol("foo".to_string()),
            Token::Number("12".to_string()),
            Token::Number("3.5".to_string()),
            Token::String("s".to_string()),
            Token::CloseParen,
            Token::Symbol("x_1".to_string()),
            Token::Eof,
        ]
    );
}

#[test]
fn compiles_to_stack_code() {
    let ast = parse("(+ 1 2)").unwrap();
    assert_eq!(
        compile_to_physics_world(&ast, TrustTier::Empirical).unwrap(),
        (vec![OpCode::Int(2), OpCode::Int(1), OpCode::Symbol(0), OpCode::Call(2)], vec![Value::String("+".to_string())])
    );
    let ast = parse("(let ((a 1)) a)").unwrap();
    assert_eq!(
        compile_to_physics_world(&ast, TrustTier::Empirical).unwrap(),
        (vec![OpCode::Int(1), OpCode::SetLocal(0), OpCode::GetLocal(0)], vec![])
    );
    let ast = parse("(:empirical (ffi-call 'read-sensor))").unwrap();
    assert_eq!(
        compile_to_physics_world(&ast, TrustTier::Empirical).unwrap(),
        (vec![OpCode::HostCall { cap_idx: 0, func_id: 0, args: 0 }], vec![])
    );
    let ast = parse("(lambda (x) x)").unwrap();
    assert_eq!(
        compile_to_physics_world(&ast, TrustTier::Empirical).unwrap(),
        (vec![OpCode::MakeClosure(1, 1), OpCode::GetLocal(0)], vec![])
    );
}

#[test]
fn scopes_restore_frame_size() {
    let mut env = CompilationEnvironment::new();
    assert_eq!(env.define_variable("a"), 0);
    env.push_scope();
    assert_eq!(env.define_variable("b"), 1);
    env.pop_scope();
    assert_eq!(env.lookup_variable("b"), None);
    assert_eq!(env.define_variable("c"), 1);
    assert_eq!(env.lookup_variable("a"), Some(0));
    assert_eq!(env.get_variable_index("zzz"), None);
}

#[test]
fn source_map_finds_first_mapping() {
    let mut map = SourceMap::new();
    let a = SourceLocation { line: 1, column: 2, offset: 1 };
    let b = SourceLocation { line: 3, column: 4, offset: 9 };
    map.add_mapping(5, a);
    map.add_mapping(5, b);
    map.add_mapping(7, b);
    assert_eq!(map.find_source_location(5), Some(&a));
    assert_eq!(map.find_source_location(6), None);
    assert_eq!(map.find_bytecode_offset(&b), Some(&5));
}

#[test]
fn standard_registry_knows_the_host_functions() {
    let registry = create_standard_ffi_registry();
    assert_eq!(registry.get_functions().len(), 20);
    assert!(registry.find_function("read-sensor").is_some());
    assert!(registry.find_function("no-such").is_none());
}

#[test]
fn ffi_calls_push_arguments_last_first_then_call_the_host() {
    let mut generator = FfiCallGenerator::new();
    generator.registry = create_standard_ffi_registry();
    let cap_idx = generator
        .registry
        .get_capability_index(&Some(Capability::IoWriteActuator))
        .unwrap();
    let code = generator
        .generate_ffi_call(
            "write-actuator",
            vec![Value::Int(7), Value::Bool(true), Value::Capability(Capability::IoNetwork), Value::String("s".to_string())],
        )
        .unwrap();
    assert_eq!(code.len(), 5);
    assert_eq!(code[0], OpCode::Nil);
    match &code[1] {
        OpCode::Int(x) => assert!(0 <= *x && *x < (1i64 << 32)),
        other => panic!("unexpected {:?}", other),
    }
    assert_eq!(code[2], OpCode::Bool(true));
    assert_eq!(code[3], OpCode::Int(7));
    assert_eq!(code[4], OpCode::HostCall { cap_idx, func_id: 1, args: 4 });
    assert_eq!(generator.generate_capability_check("write-actuator").unwrap(), vec![OpCode::HasCap(cap_idx)]);
    match generator.generate_ffi_call("no-such", vec![]) {
        Err(CompilationError::FfiError(m)) => assert_eq!(m, "FFI function no-such not found"),
        other => panic!("unexpected {:?}", other),
    }
}

#[test]
fn compiler_steps_emit_the_documented_code() {
    let mut compiler = PhysicsWorldCompiler::new(TrustTier::Empirical);
    let int = |n: i64| AstNode::Literal(Literal::Int(n));
    let code = compiler.compile_if(&AstNode::Literal(Literal::Bool(true)), &int(1), &int(2), false).unwrap();
    assert_eq!(code, vec![OpCode::Bool(true), OpCode::JmpIfFalse(2), OpCode::Int(1), OpCode::Jmp(1), OpCode::Int(2)]);
    let request = compiler.compile_require_capability_string("IoNetwork").unwrap();
    assert_eq!(request, vec![OpCode::RequestCap(0, 0)]);
    assert_eq!(compiler.analyze_capabilities_from_bytecode(&request), vec![Capability::IoNetwork]);
    assert_eq!(
        compiler.insert_runtime_capability_checks(request).unwrap(),
        vec![OpCode::HasCap(0), OpCode::JmpIfFalse(2), OpCode::RequestCap(0, 0)]
    );
    assert_eq!(compiler.insert_runtime_capability_checks(vec![OpCode::Int(1)]).unwrap(), vec![OpCode::Int(1)]);
    assert_eq!(
        compiler.add_sandbox_wrapper(vec![OpCode::Int(1)]).unwrap(),
        vec![
            OpCode::InitSandbox,
            OpCode::IsolateCapabilities,
            OpCode::SetErrorHandler(3),
            OpCode::Int(1),
            OpCode::CleanupSandbox,
            OpCode::LogSandboxViolation
        ]
    );
    match compiler.compile_require_capability_string("Teleport") {
        Err(CompilationError::InternalError(m)) => assert_eq!(m, "Unknown capability: Teleport"),
        other => panic!("unexpected {:?}", other),
    }
    assert_eq!(compiler.get_string_index("a"), 0);
    assert_eq!(compiler.get_string_index("b"), 1);
    assert_eq!(compiler.get_string_index("a"), 0);
}
