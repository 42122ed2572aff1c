//! A capability-aware compiler front end: it reads a small Lisp-like
//! language, checks which capabilities a program needs against a trust tier,
//! and lowers programs to stack bytecode or to lambda-calculus terms.
use vstd::prelude::*;

pub mod text;
pub mod physics;
pub mod trust_tier;
pub mod error;
pub mod ast;
pub mod resource_limits;
pub mod source_location;
pub mod type_system;
pub mod runtime_checks;
pub mod token;
pub mod tokenizer;
pub mod parser;
pub mod expression_parser;
pub mod capability_analyzer;
pub mod capability_analysis;
pub mod capability_checking;
pub mod global_ffi_registry;
pub mod standard_functions;
pub mod ffi;
pub mod ffi_call_generator;
pub mod environment;
pub mod physics_compiler;
pub mod escape_analysis;
pub mod ast_view;
pub mod macro_system;
pub mod macro_expander;
pub mod macro_ffi;
pub mod integration;
pub mod core_compilation;
pub mod core_proofs;
pub mod bytecode_generation;
pub mod compiler;
pub mod capability_mediator;
pub mod structured_error;
pub mod sandbox;
pub mod sandbox_wrapper;
pub mod capability_ffi;
pub mod ast_text;
pub mod variable_references;
pub mod laws;
pub mod compilation_laws;

verus! {
} // verus!
