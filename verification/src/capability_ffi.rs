//! Foreign calls mediated by capabilities: a call compiles to a capability
//! check, the arguments and the host call, and only if the trust tier
//! grants the capability the function needs.
use vstd::prelude::*;
use crate::capability_analyzer::ffi_capability_spec;
use crate::error::{CompilationError, SourceLocation, unknown_location};
use crate::physics::{Capability, HostFunction, OpCode, Value, capability_name, capability_name_spec,
    host_function_id, host_function_number};
use crate::text::str_eq;
use crate::trust_tier::{TrustTier, tier_grants, tier_name_spec};

verus! {

/// The host function behind each standard foreign function.
pub open spec fn ffi_host_spec(name: Seq<char>) -> Option<HostFunction> {
    if name == "read-sensor"@ {
        Some(HostFunction::ReadSensor)
    } else if name == "write-actuator"@ {
        Some(HostFunction::WriteActuator)
    } else if name == "get-wall-clock"@ {
        Some(HostFunction::GetWallClockNs)
    } else if name == "spawn-actor"@ {
        Some(HostFunction::SpawnActor)
    } else if name == "terminate-actor"@ {
        Some(HostFunction::TerminateActor)
    } else if name == "network-send"@ {
        Some(HostFunction::NetworkSend)
    } else if name == "network-receive"@ {
        Some(HostFunction::NetworkReceive)
    } else if name == "persist-write"@ {
        Some(HostFunction::PersistWrite)
    } else if name == "persist-read"@ {
        Some(HostFunction::PersistRead)
    } else {
        None
    }
}

/// The value of the first entry named `name` of a table.
pub open spec fn lookup<T>(table: Seq<(String, T)>, name: Seq<char>) -> Option<T>
    decreases table.len(),
{
    if table.len() == 0 {
        None
    } else if table[0].0@ == name {
        Some(table[0].1)
    } else {
        lookup(table.drop_first(), name)
    }
}

/// Looks `name` up in a table.
fn find_entry<T: Copy>(table: &Vec<(String, T)>, name: &str) -> (r: Option<T>)
    ensures
        r == lookup(table@, name@),
{
    let mut i: usize = 0;
    assert(table@.skip(0) =~= table@);
    while i < table.len()
        invariant
            i <= table@.len(),
            lookup(table@, name@) == lookup(table@.skip(i as int), name@),
        decreases table@.len() - i,
    {
        assert(table@.skip(i as int)[0] == table@[i as int]);
        if str_eq(table[i].0.as_str(), name) {
            return Some(table[i].1);
        }
        assert(table@.skip(i as int).drop_first() =~= table@.skip(i as int + 1));
        i = i + 1;
    }
    None
}

/// A foreign call whose capability was checked against a tier.
#[derive(Debug, Clone)]
pub struct CapabilityMediatedFfiCall {
    /// The function.
    pub function_name: String,
    /// The capability it needs.
    pub required_capability: Capability,
    /// The arguments.
    pub arguments: Vec<Value>,
    /// Where.
    pub location: SourceLocation,
}

/// The instruction that pushes an argument: nil, booleans, integers,
/// floats and symbols are pushed as themselves; anything else as nil.
pub open spec fn argument_opcode(v: Value) -> OpCode {
    match v {
        Value::Nil => OpCode::Nil,
        Value::Bool(b) => OpCode::Bool(b),
        Value::Int(i) => OpCode::Int(i),
        Value::Float(f) => OpCode::Float(f),
        Value::Symbol(s) => OpCode::Symbol(s),
        _ => OpCode::Nil,
    }
}

/// The instructions that push the arguments, last first.
pub open spec fn argument_setup(args: Seq<Value>) -> Seq<OpCode> {
    Seq::new(args.len(), |i: int| argument_opcode(args[args.len() - 1 - i]))
}

/// The capability check put before a mediated call.
pub open spec fn capability_check_code() -> Seq<OpCode> {
    seq![OpCode::HasCap(0), OpCode::JmpIfFalse(2)]
}

/// The message of a capability a tier does not grant.
pub open spec fn not_granted_message(c: Capability, tier: TrustTier) -> Seq<char> {
    "Capability "@ + capability_name_spec(c) + " not granted for trust tier "@ + tier_name_spec(tier)
}

/// Compiles capability-mediated foreign calls for a trust tier.
pub struct CapabilityMediatedFfiGenerator {
    /// The trust tier.
    pub trust_tier: TrustTier,
    /// The capability each foreign function needs.
    pub capability_mapping: Vec<(String, Capability)>,
    /// The host function behind each foreign function.
    pub host_function_mapping: Vec<(String, HostFunction)>,
}

/// The standard table of capabilities.
fn create_standard_capability_mapping() -> (r: Vec<(String, Capability)>)
    ensures
        forall|n: Seq<char>| lookup(r@, n) == ffi_capability_spec(n),
{
    let mut m: Vec<(String, Capability)> = Vec::new();
    m.push((String::from_str("read-sensor"), Capability::IoReadSensor));
    m.push((String::from_str("write-actuator"), Capability::IoWriteActuator));
    m.push((String::from_str("network-send"), Capability::IoNetwork));
    m.push((String::from_str("network-receive"), Capability::IoNetwork));
    m.push((String::from_str("persist-write"), Capability::IoPersist));
    m.push((String::from_str("persist-read"), Capability::IoPersist));
    m.push((String::from_str("get-wall-clock"), Capability::SysClock));
    m.push((String::from_str("spawn-actor"), Capability::SysCreateActor));
    m.push((String::from_str("terminate-actor"), Capability::SysTerminateActor));
    proof {
        assert forall|n: Seq<char>| lookup(m@, n) == ffi_capability_spec(n) by {
            reveal_with_fuel(lookup, 10);
            let s = m@;
            assert(s.drop_first().drop_first().drop_first().drop_first().drop_first().drop_first().drop_first().drop_first().drop_first().len() == 0);
        }
    }
    m
}

/// The standard table of host functions.
fn create_standard_host_function_mapping() -> (r: Vec<(String, HostFunction)>)
    ensures
        forall|n: Seq<char>| lookup(r@, n) == ffi_host_spec(n),
{
    let mut m: Vec<(String, HostFunction)> = Vec::new();
    m.push((String::from_str("read-sensor"), HostFunction::ReadSensor));
    m.push((String::from_str("write-actuator"), HostFunction::WriteActuator));
    m.push((String::from_str("get-wall-clock"), HostFunction::GetWallClockNs));
    m.push((String::from_str("spawn-actor"), HostFunction::SpawnActor));
    m.push((String::from_str("terminate-actor"), HostFunction::TerminateActor));
    m.push((String::from_str("network-send"), HostFunction::NetworkSend));
    m.push((String::from_str("network-receive"), HostFunction::NetworkReceive));
    m.push((String::from_str("persist-write"), HostFunction::PersistWrite));
    m.push((String::from_str("persist-read"), HostFunction::PersistRead));
    proof {
        assert forall|n: Seq<char>| lookup(m@, n) == ffi_host_spec(n) by {
            reveal_with_fuel(lookup, 10);
            let s = m@;
            assert(s.drop_first().drop_first().drop_first().drop_first().drop_first().drop_first().drop_first().drop_first().drop_first().len() == 0);
        }
    }
    m
}

impl CapabilityMediatedFfiGenerator {
    /// A generator for `trust_tier` with the standard tables.
    pub fn new(trust_tier: TrustTier) -> (r: Self)
        ensures
            r.trust_tier == trust_tier,
            forall|n: Seq<char>| lookup(r.capability_mapping@, n) == ffi_capability_spec(n),
            forall|n: Seq<char>| lookup(r.host_function_mapping@, n) == ffi_host_spec(n),
    {
        CapabilityMediatedFfiGenerator {
            trust_tier,
            capability_mapping: create_standard_capability_mapping(),
            host_function_mapping: create_standard_host_function_mapping(),
        }
    }

    /// The code of a call of `function_name` with `arguments`: the
    /// capability check, the arguments last first, and the host call (with
    /// the argument count truncated to a byte). The function must be in the
    /// capability table and its capability granted by the tier.
    pub fn generate_capability_mediated_ffi_call(
        &self,
        function_name: &str,
        arguments: &[Value],
        location: SourceLocation,
    ) -> (r: Result<Vec<OpCode>, CompilationError>)
        requires
            lookup(self.capability_mapping@, function_name@) is Some ==> lookup(
                self.host_function_mapping@,
                function_name@,
            ) is Some,
        ensures
            lookup(self.capability_mapping@, function_name@) is None ==> (r matches Err(
                CompilationError::FfiError(m),
            ) && m@ == "FFI function "@ + function_name@ + " not found"@),
            lookup(self.capability_mapping@, function_name@) matches Some(c) ==> {
                &&& !tier_grants(self.trust_tier, c) ==> (r matches Err(CompilationError::FfiError(m))
                    && m@ == not_granted_message(c, self.trust_tier))
                &&& tier_grants(self.trust_tier, c) ==> (r matches Ok(code) && code@
                    == capability_check_code() + argument_setup(arguments@) + seq![
                    OpCode::HostCall {
                        cap_idx: 0,
                        func_id: host_function_number(
                            lookup(self.host_function_mapping@, function_name@).unwrap(),
                        ),
                        args: arguments@.len() as u8,
                    },
                ])
            },
    {
        let required_capability = match find_entry(&self.capability_mapping, function_name) {
            Some(c) => c,
            None => {
                let mut m = String::from_str("FFI function ");
                m.append(function_name);
                m.append(" not found");
                return Err(CompilationError::FfiError(m));
            },
        };
        let host_function = match find_entry(&self.host_function_mapping, function_name) {
            Some(h) => h,
            None => {
                let mut m = String::from_str("FFI function ");
                m.append(function_name);
                m.append(" has no host function");
                return Err(CompilationError::InternalError(m));
            },
        };
        match self.validate_capability_for_tier(&required_capability) {
            Ok(()) => {},
            Err(e) => {
                return Err(e);
            },
        }
        let mut bytecode = self.generate_capability_check(&required_capability);
        let mut setup = self.generate_argument_setup(arguments);
        let ghost check = bytecode@;
        let ghost args = setup@;
        bytecode.append(&mut setup);
        bytecode.push(
            OpCode::HostCall {
                cap_idx: 0,
                func_id: host_function_id(host_function),
                args: arguments.len() as u8,
            },
        );
        assert(bytecode@ =~= check + args + seq![
            OpCode::HostCall {
                cap_idx: 0,
                func_id: host_function_number(host_function),
                args: arguments@.len() as u8,
            },
        ]);
        Ok(bytecode)
    }

    /// Does the tier grant `capability`; if not, a foreign-call error says
    /// so.
    pub fn validate_capability_for_tier(&self, capability: &Capability) -> (r: Result<(), CompilationError>)
        ensures
            tier_grants(self.trust_tier, *capability) ==> r is Ok,
            !tier_grants(self.trust_tier, *capability) ==> (r matches Err(CompilationError::FfiError(m))
                && m@ == not_granted_message(*capability, self.trust_tier)),
    {
        let granted = self.trust_tier.granted_capabilities();
        let mut i: usize = 0;
        while i < granted.len()
            invariant
                i <= granted@.len(),
                forall|c: Capability| granted@.contains(c) <==> tier_grants(self.trust_tier, c),
                forall|j: int| 0 <= j < i ==> granted@[j] != *capability,
            decreases granted@.len() - i,
        {
            if granted[i] == *capability {
                assert(granted@.contains(*capability));
                return Ok(());
            }
            i = i + 1;
        }
        let mut m = String::from_str("Capability ");
        m.append(capability_name(*capability));
        m.append(" not granted for trust tier ");
        m.append(self.trust_tier.name());
        Err(CompilationError::FfiError(m))
    }

    /// The capability check: check capability 0 and jump over the call when
    /// it is missing.
    pub fn generate_capability_check(&self, capability: &Capability) -> (r: Vec<OpCode>)
        ensures
            r@ == capability_check_code(),
    {
        let r = vec![OpCode::HasCap(0), OpCode::JmpIfFalse(2)];
        assert(r@ =~= capability_check_code());
        r
    }

    /// The instructions that push the arguments, last first.
    pub fn generate_argument_setup(&self, arguments: &[Value]) -> (r: Vec<OpCode>)
        ensures
            r@ == argument_setup(arguments@),
    {
        let mut bytecode: Vec<OpCode> = Vec::new();
        let n = arguments.len();
        let mut k: usize = 0;
        while k < n
            invariant
                k <= n,
                n == arguments@.len(),
                bytecode@ == argument_setup(arguments@).take(k as int),
            decreases n - k,
        {
            let op = match &arguments[n - 1 - k] {
                Value::Nil => OpCode::Nil,
                Value::Bool(b) => OpCode::Bool(*b),
                Value::Int(i) => OpCode::Int(*i),
                Value::Float(f) => OpCode::Float(f.clone()),
                Value::Symbol(s) => OpCode::Symbol(*s),
                _ => OpCode::Nil,
            };
            bytecode.push(op);
            k = k + 1;
            assert(bytecode@ =~= argument_setup(arguments@).take(k as int));
        }
        assert(argument_setup(arguments@).take(n as int) =~= argument_setup(arguments@));
        bytecode
    }

    /// The code that reports a missing capability: push the error symbol
    /// and jump to the handler.
    pub fn generate_capability_error_handling(&self) -> (r: Vec<OpCode>)
        ensures
            r@ == seq![OpCode::Symbol(0), OpCode::Jmp(1)],
    {
        let r = vec![OpCode::Symbol(0), OpCode::Jmp(1)];
        assert(r@ =~= seq![OpCode::Symbol(0), OpCode::Jmp(1)]);
        r
    }

    /// The capability `function_name` needs, by the table.
    pub fn get_required_capability(&self, function_name: &str) -> (r: Option<Capability>)
        ensures
            r == lookup(self.capability_mapping@, function_name@),
    {
        find_entry(&self.capability_mapping, function_name)
    }

    /// The host function behind `function_name`, by the table.
    pub fn get_host_function(&self, function_name: &str) -> (r: Option<HostFunction>)
        ensures
            r == lookup(self.host_function_mapping@, function_name@),
    {
        find_entry(&self.host_function_mapping, function_name)
    }

    /// Is `function_name` in the table with a capability the tier grants.
    pub fn is_ffi_function_available(&self, function_name: &str) -> (r: bool)
        ensures
            r == (lookup(self.capability_mapping@, function_name@) matches Some(c) && tier_grants(
                self.trust_tier,
                c,
            )),
    {
        match self.get_required_capability(function_name) {
            Some(c) => self.trust_tier.allows_capability(&c),
            None => false,
        }
    }
}

/// The message of a foreign call a tier may not make.
pub open spec fn call_not_granted_message(name: Seq<char>, c: Capability, tier: TrustTier) -> Seq<char> {
    "FFI call to "@ + name + " requires capability "@ + capability_name_spec(c)
        + " not granted for trust tier "@ + tier_name_spec(tier)
}

/// The outcome of validating one call by a table and a tier.
pub open spec fn call_validation(table: Seq<(String, Capability)>, tier: TrustTier, name: Seq<char>) -> Option<
    Seq<char>,
> {
    match lookup(table, name) {
        None => Some("FFI function "@ + name + " not found"@),
        Some(c) => if tier_grants(tier, c) {
            None
        } else {
            Some(call_not_granted_message(name, c, tier))
        },
    }
}

/// The first failing validation among `names` from index `i` on.
pub open spec fn first_invalid(
    table: Seq<(String, Capability)>,
    tier: TrustTier,
    names: Seq<String>,
    i: int,
) -> Option<Seq<char>>
    decreases names.len() - i,
{
    if i < 0 || i >= names.len() {
        None
    } else {
        match call_validation(table, tier, names[i]@) {
            Some(m) => Some(m),
            None => first_invalid(table, tier, names, i + 1),
        }
    }
}

/// Checks foreign calls against a tier.
pub struct CapabilityMediatedFfiValidator {
    /// The trust tier.
    pub trust_tier: TrustTier,
    /// The capability each foreign function needs.
    pub capability_mapping: Vec<(String, Capability)>,
}

impl CapabilityMediatedFfiValidator {
    /// A validator for `trust_tier` with the standard table.
    pub fn new(trust_tier: TrustTier) -> (r: Self)
        ensures
            r.trust_tier == trust_tier,
            forall|n: Seq<char>| lookup(r.capability_mapping@, n) == ffi_capability_spec(n),
    {
        CapabilityMediatedFfiValidator { trust_tier, capability_mapping: create_standard_capability_mapping() }
    }

    /// Accepts a call of a function of the table whose capability the tier
    /// grants; otherwise a foreign-call error says why.
    pub fn validate_ffi_call(&self, function_name: &str) -> (r: Result<(), CompilationError>)
        ensures
            match call_validation(self.capability_mapping@, self.trust_tier, function_name@) {
                None => r is Ok,
                Some(m) => r matches Err(CompilationError::FfiError(e)) && e@ == m,
            },
    {
        let required_capability = match find_entry(&self.capability_mapping, function_name) {
            Some(c) => c,
            None => {
                let mut m = String::from_str("FFI function ");
                m.append(function_name);
                m.append(" not found");
                return Err(CompilationError::FfiError(m));
            },
        };
        if !self.trust_tier.allows_capability(&required_capability) {
            let mut m = String::from_str("FFI call to ");
            m.append(function_name);
            m.append(" requires capability ");
            m.append(capability_name(required_capability));
            m.append(" not granted for trust tier ");
            m.append(self.trust_tier.name());
            return Err(CompilationError::FfiError(m));
        }
        Ok(())
    }

    /// Validates each call in order; the first failure is reported.
    pub fn validate_ffi_calls(&self, function_names: &[String]) -> (r: Result<(), CompilationError>)
        ensures
            match first_invalid(self.capability_mapping@, self.trust_tier, function_names@, 0) {
                None => r is Ok,
                Some(m) => r matches Err(CompilationError::FfiError(e)) && e@ == m,
            },
    {
        let mut i: usize = 0;
        while i < function_names.len()
            invariant
                i <= function_names@.len(),
                first_invalid(self.capability_mapping@, self.trust_tier, function_names@, 0)
                    == first_invalid(self.capability_mapping@, self.trust_tier, function_names@, i as int),
            decreases function_names@.len() - i,
        {
            match self.validate_ffi_call(function_names[i].as_str()) {
                Ok(()) => {},
                Err(e) => {
                    return Err(e);
                },
            }
            i = i + 1;
        }
        Ok(())
    }

    /// The functions of the table whose capability the tier grants, in
    /// table order.
    pub fn get_available_ffi_functions(&self) -> (r: Vec<String>)
        ensures
            r@.map_values(|s: String| s@) == self.capability_mapping@.filter(
                |e: (String, Capability)| tier_grants(self.trust_tier, e.1),
            ).map_values(|e: (String, Capability)| e.0@),
    {
        let ghost pred = |e: (String, Capability)| tier_grants(self.trust_tier, e.1);
        let ghost name_of = |e: (String, Capability)| e.0@;
        let mut out: Vec<String> = Vec::new();
        let mut i: usize = 0;
        while i < self.capability_mapping.len()
            invariant
                i <= self.capability_mapping@.len(),
                pred == (|e: (String, Capability)| tier_grants(self.trust_tier, e.1)),
                name_of == (|e: (String, Capability)| e.0@),
                out@.len() == self.capability_mapping@.take(i as int).filter(pred).len(),
                forall|j: int|
                    0 <= j < out@.len() ==> (#[trigger] out@[j])@ == self.capability_mapping@.take(
                        i as int,
                    ).filter(pred)[j].0@,
            decreases self.capability_mapping@.len() - i,
        {
            let ghost before = self.capability_mapping@.take(i as int).filter(pred);
            proof {
                reveal(Seq::filter);
                assert(self.capability_mapping@.take(i as int + 1).drop_last() =~= self.capability_mapping@.take(
                    i as int,
                ));
            }
            let c = self.capability_mapping[i].1;
            if self.trust_tier.allows_capability(&c) {
                out.push(self.capability_mapping[i].0.clone());
                assert(self.capability_mapping@.take(i as int + 1).filter(pred) == before.push(
                    self.capability_mapping@[i as int],
                ));
            } else {
                assert(self.capability_mapping@.take(i as int + 1).filter(pred) == before);
            }
            i = i + 1;
        }
        assert(self.capability_mapping@.take(i as int) =~= self.capability_mapping@);
        assert(out@.map_values(|s: String| s@) =~= self.capability_mapping@.filter(pred).map_values(
            name_of,
        ));
        out
    }
}

/// Builds a capability-mediated foreign call.
pub struct CapabilityMediatedFfiBuilder {
    /// The trust tier of the caller.
    pub trust_tier: TrustTier,
    /// The function.
    pub function_name: String,
    /// The arguments so far.
    pub arguments: Vec<Value>,
    /// Where.
    pub location: SourceLocation,
}

impl CapabilityMediatedFfiBuilder {
    /// A call of `function_name` by a caller of `trust_tier`, with no
    /// argument, at the unknown location.
    pub fn new(function_name: &str, trust_tier: TrustTier) -> (r: Self)
        ensures
            r.trust_tier == trust_tier,
            r.function_name@ == function_name@,
            r.arguments@.len() == 0,
            r.location == unknown_location(),
    {
        CapabilityMediatedFfiBuilder {
            trust_tier,
            function_name: String::from_str(function_name),
            arguments: Vec::new(),
            location: SourceLocation::default(),
        }
    }

    /// Adds an argument after the others.
    pub fn with_argument(self, argument: Value) -> (r: Self)
        ensures
            r.arguments@ == self.arguments@.push(argument),
            r == (CapabilityMediatedFfiBuilder { arguments: r.arguments, ..self }),
    {
        let mut s = self;
        s.arguments.push(argument);
        s
    }

    /// Sets the location.
    pub fn with_location(self, location: SourceLocation) -> (r: Self)
        ensures
            r == (CapabilityMediatedFfiBuilder { location, ..self }),
    {
        let mut s = self;
        s.location = location;
        s
    }

    /// The call, once the function is known to the standard table and its
    /// capability granted by the tier.
    pub fn build(self) -> (r: Result<CapabilityMediatedFfiCall, CompilationError>)
        ensures
            ffi_capability_spec(self.function_name@) is None ==> (r matches Err(
                CompilationError::FfiError(m),
            ) && m@ == "FFI function "@ + self.function_name@ + " not found"@),
            ffi_capability_spec(self.function_name@) matches Some(c) ==> {
                &&& !tier_grants(self.trust_tier, c) ==> (r matches Err(CompilationError::FfiError(m))
                    && m@ == not_granted_message(c, self.trust_tier))
                &&& tier_grants(self.trust_tier, c) ==> (r matches Ok(call) && call
                    == CapabilityMediatedFfiCall {
                    function_name: self.function_name,
                    required_capability: c,
                    arguments: self.arguments,
                    location: self.location,
                })
            },
    {
        let generator = CapabilityMediatedFfiGenerator::new(self.trust_tier);
        let required_capability = match generator.get_required_capability(self.function_name.as_str()) {
            Some(c) => c,
            None => {
                let mut m = String::from_str("FFI function ");
                m.append(self.function_name.as_str());
                m.append(" not found");
                return Err(CompilationError::FfiError(m));
            },
        };
        match generator.validate_capability_for_tier(&required_capability) {
            Ok(()) => {},
            Err(e) => {
                return Err(e);
            },
        }
        Ok(CapabilityMediatedFfiCall {
            function_name: self.function_name,
            required_capability,
            arguments: self.arguments,
            location: self.location,
        })
    }
}

} // verus!
