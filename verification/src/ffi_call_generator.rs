//! Lowering a call of a registered foreign function to bytecode: its
//! arguments are pushed last first, then a host call names the function and
//! the index of the capability that guards it.
use vstd::prelude::*;
use std::hash::{Hash, Hasher};
use crate::error::{CompilationError, SourceLocation, default_location, unknown_location};
use crate::global_ffi_registry::{FfiRegistry, FfiFunction, has_name, name_position, has_capability_index};
use crate::physics::{Capability, OpCode, Value, host_function_id, host_function_number, capability_name, capability_name_spec};

verus! {

/// Hashes a capability with std's `DefaultHasher::new()`. Nothing is stated
/// of the value: the hash of a derived `Hash` depends on the width and byte
/// order of the platform's `isize`, and std leaves the algorithm open.
#[verifier::external_body]
fn default_hash(capability: &Capability) -> (r: u64) {
    let mut hasher = std::collections::hash_map::DefaultHasher::new();
    capability.hash(&mut hasher);
    hasher.finish()
}

/// Does `op` push the value `v`? Strings are pushed as nil, heap addresses,
/// actor identifiers and collected pointers as integers, and a capability as
/// the integer that the low 32 bits of its hash make (only that range is
/// stated, since the hash depends on the platform).
pub open spec fn pushes_value(v: Value, op: OpCode) -> bool {
    match v {
        Value::Nil => op == OpCode::Nil,
        Value::Bool(b) => op == OpCode::Bool(b),
        Value::Int(i) => op == OpCode::Int(i),
        Value::Float(f) => op == OpCode::Float(f),
        Value::String(_) => op == OpCode::Nil,
        Value::Symbol(s) => op == OpCode::Symbol(s),
        Value::Pair(p) => op == OpCode::Int(p as i64),
        Value::Closure(p) => op == OpCode::Int(p as i64),
        Value::ActorId(id) => op == OpCode::Int(id as i64),
        Value::Capability(_) => op matches OpCode::Int(x) && 0 <= x < 0x1_0000_0000,
        Value::GcPtr(p) => op == OpCode::Int(p as i64),
    }
}

/// How an optional capability is written in diagnostics.
pub open spec fn optional_capability_debug(c: Option<Capability>) -> Seq<char> {
    match c {
        Some(x) => "Some("@ + capability_name_spec(x) + ")"@,
        None => "None"@,
    }
}

/// Generates the bytecode of foreign calls.
pub struct FfiCallGenerator {
    /// The functions that may be called.
    pub registry: FfiRegistry,
    /// Where the call being generated stands.
    pub location: SourceLocation,
}

impl FfiCallGenerator {
    /// A generator with an empty registry.
    pub fn new() -> (r: Self)
        ensures
            r.registry.wf(),
            r.registry.functions@.len() == 0,
            r.registry.capability_indices@.len() == 0,
            r.location == unknown_location(),
    {
        FfiCallGenerator { registry: FfiRegistry::new(), location: default_location() }
    }

    /// The function named `name` and the index of the capability it needs.
    fn resolve(&self, name: &str) -> (r: Result<(&FfiFunction, usize), CompilationError>)
        requires
            self.registry.wf(),
        ensures
            !has_name(self.registry.functions@, name@) ==> (r matches Err(CompilationError::FfiError(m))
                && m@ == "FFI function "@ + name@ + " not found"@),
            has_name(self.registry.functions@, name@) ==> ({
                let f = self.registry.functions@[name_position(self.registry.functions@, name@)];
                &&& !has_capability_index(self.registry.capability_indices@, f.required_capability)
                    ==> (r matches Err(CompilationError::FfiError(m)) && m@
                    == "No capability index found for capability "@ + optional_capability_debug(
                    f.required_capability,
                ))
                &&& has_capability_index(self.registry.capability_indices@, f.required_capability)
                    ==> (r matches Ok((g, k)) && *g == f && k < self.registry.capability_indices@.len()
                    && self.registry.capability_indices@[k as int].0 == f.required_capability)
            }),
    {
        let func = match self.registry.find_function(name) {
            Some(f) => f,
            None => {
                let mut m = String::from_str("FFI function ");
                m.append(name);
                m.append(" not found");
                return Err(CompilationError::FfiError(m));
            },
        };
        match self.registry.get_capability_index(&func.required_capability) {
            Some(k) => Ok((func, k)),
            None => {
                let mut m = String::from_str("No capability index found for capability ");
                match func.required_capability {
                    Some(c) => {
                        m.append("Some(");
                        m.append(capability_name(c));
                        m.append(")");
                    },
                    None => {
                        m.append("None");
                    },
                }
                Err(CompilationError::FfiError(m))
            },
        }
    }

    /// The bytecode of a call of the foreign function `name`: the arguments,
    /// last first, then the host call. The argument count is taken modulo
    /// 256.
    pub fn generate_ffi_call(&self, name: &str, arguments: Vec<Value>) -> (r: Result<
        Vec<OpCode>,
        CompilationError,
    >)
        requires
            self.registry.wf(),
        ensures
            !has_name(self.registry.functions@, name@) ==> (r matches Err(CompilationError::FfiError(m))
                && m@ == "FFI function "@ + name@ + " not found"@),
            has_name(self.registry.functions@, name@) ==> ({
                let f = self.registry.functions@[name_position(self.registry.functions@, name@)];
                let n = arguments@.len();
                &&& !has_capability_index(self.registry.capability_indices@, f.required_capability)
                    ==> (r matches Err(CompilationError::FfiError(m)) && m@
                    == "No capability index found for capability "@ + optional_capability_debug(
                    f.required_capability,
                ))
                &&& has_capability_index(self.registry.capability_indices@, f.required_capability)
                    ==> (r matches Ok(bc) && bc@.len() == n + 1 && (forall|i: int|
                    0 <= i < n ==> pushes_value(arguments@[n - 1 - i], bc@[i])) && (bc@[n as int] matches OpCode::HostCall {
                    cap_idx,
                    func_id,
                    args,
                } && cap_idx < self.registry.capability_indices@.len()
                    && self.registry.capability_indices@[cap_idx as int].0 == f.required_capability
                    && func_id == host_function_number(f.host_function) && args == (n as u8)))
            }),
    {
        let (func, cap_idx) = match self.resolve(name) {
            Ok(x) => x,
            Err(e) => {
                return Err(e);
            },
        };
        let n = arguments.len();
        let opcode = OpCode::HostCall {
            cap_idx,
            func_id: host_function_id(func.host_function),
            args: n as u8,
        };
        let mut bytecode: Vec<OpCode> = Vec::new();
        let mut rest = arguments;
        while rest.len() > 0
            invariant
                rest@ == arguments@.take(rest@.len() as int),
                rest@.len() <= n,
                n == arguments@.len(),
                bytecode@.len() == n - rest@.len(),
                forall|i: int| 0 <= i < bytecode@.len() ==> pushes_value(arguments@[n - 1 - i], #[trigger] bytecode@[i]),
            decreases rest@.len(),
        {
            let ghost before = rest@;
            let ghost code_before = bytecode@;
            let v = rest.pop().unwrap();
            assert(rest@ =~= arguments@.take(rest@.len() as int));
            assert(v == arguments@[n - 1 - code_before.len()]);
            match self.push_value_to_bytecode(&mut bytecode, v) {
                Ok(()) => {},
                Err(e) => {
                    return Err(e);
                },
            }
            assert forall|i: int| 0 <= i < bytecode@.len() implies pushes_value(
                arguments@[n - 1 - i],
                #[trigger] bytecode@[i],
            ) by {
                if i < code_before.len() {
                    assert(bytecode@[i] == bytecode@.drop_last()[i]);
                }
            }
        }
        bytecode.push(opcode);
        Ok(bytecode)
    }

    /// The bytecode that checks whether the capability that the foreign
    /// function `name` needs is held.
    pub fn generate_capability_check(&self, name: &str) -> (r: Result<Vec<OpCode>, CompilationError>)
        requires
            self.registry.wf(),
        ensures
            !has_name(self.registry.functions@, name@) ==> (r matches Err(CompilationError::FfiError(m))
                && m@ == "FFI function "@ + name@ + " not found"@),
            has_name(self.registry.functions@, name@) ==> ({
                let f = self.registry.functions@[name_position(self.registry.functions@, name@)];
                &&& !has_capability_index(self.registry.capability_indices@, f.required_capability)
                    ==> (r matches Err(CompilationError::FfiError(m)) && m@
                    == "No capability index found for capability "@ + optional_capability_debug(
                    f.required_capability,
                ))
                &&& has_capability_index(self.registry.capability_indices@, f.required_capability)
                    ==> (r matches Ok(bc) && bc@.len() == 1 && (bc@[0] matches OpCode::HasCap(k)
                    && k < self.registry.capability_indices@.len()
                    && self.registry.capability_indices@[k as int].0 == f.required_capability))
            }),
    {
        let (_func, cap_idx) = match self.resolve(name) {
            Ok(x) => x,
            Err(e) => {
                return Err(e);
            },
        };
        Ok(vec![OpCode::HasCap(cap_idx)])
    }

    /// Appends the instruction that pushes `value`.
    fn push_value_to_bytecode(&self, bytecode: &mut Vec<OpCode>, value: Value) -> (r: Result<
        (),
        CompilationError,
    >)
        ensures
            r is Ok,
            final(bytecode)@.len() == old(bytecode)@.len() + 1,
            final(bytecode)@.drop_last() == old(bytecode)@,
            pushes_value(value, final(bytecode)@.last()),
    {
        let op = match value {
            Value::Nil => OpCode::Nil,
            Value::Bool(b) => OpCode::Bool(b),
            Value::Int(i) => OpCode::Int(i),
            Value::Float(f) => OpCode::Float(f),
            Value::String(_) => OpCode::Nil,
            Value::Symbol(s) => OpCode::Symbol(s),
            Value::Pair(p) => OpCode::Int(p as i64),
            Value::Closure(p) => OpCode::Int(p as i64),
            Value::ActorId(id) => OpCode::Int(id as i64),
            Value::Capability(c) => OpCode::Int(self.hash_capability(&c) as i64),
            Value::GcPtr(p) => OpCode::Int(p as i64),
        };
        bytecode.push(op);
        Ok(())
    }

    /// The low 32 bits of a capability's hash.
    fn hash_capability(&self, capability: &Capability) -> (r: u32) {
        default_hash(capability) as u32
    }
}

} // verus!
