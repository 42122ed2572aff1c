//! The instruction set, constants, capabilities and host functions of the
//! stack machine that compiled programs run on, as far as this compiler
//! produces and reads them.
use vstd::prelude::*;
use crate::text::str_eq;

verus! {

/// A capability that a program may hold or request.
#[derive(Debug, Clone, Copy, PartialEq, Eq, Hash, Structural)]
pub enum Capability {
    /// Modify the running system itself.
    MetaSelfModify,
    /// Grant capabilities to others.
    MetaGrant,
    /// Expand hygienic macros.
    MacroHygienic,
    /// Expand unhygienic macros.
    MacroUnsafe,
    /// Evaluate code at compile time.
    ComptimeEval,
    /// Read a sensor.
    IoReadSensor,
    /// Drive an actuator.
    IoWriteActuator,
    /// Use the network.
    IoNetwork,
    /// Use persistent storage.
    IoPersist,
    /// Create an actor.
    SysCreateActor,
    /// Terminate an actor.
    SysTerminateActor,
    /// Read the wall clock.
    SysClock,
}

/// A function of the host that a `HostCall` instruction invokes.
#[derive(Debug, Clone, Copy, PartialEq, Eq, Hash, Structural)]
pub enum HostFunction {
    /// Read a sensor.
    ReadSensor,
    /// Write an actuator.
    WriteActuator,
    /// Wall clock in nanoseconds.
    GetWallClockNs,
    /// Spawn an actor.
    SpawnActor,
    /// Terminate an actor.
    TerminateActor,
    /// Send on the network.
    NetworkSend,
    /// Receive from the network.
    NetworkReceive,
    /// Write to storage.
    PersistWrite,
    /// Read from storage.
    PersistRead,
    /// Integer addition.
    IntAdd,
    /// Integer subtraction.
    IntSub,
    /// Integer multiplication.
    IntMul,
    /// Integer division.
    IntDiv,
    /// Integer remainder.
    IntMod,
    /// Float addition.
    FloatAdd,
    /// Float subtraction.
    FloatSub,
    /// Float multiplication.
    FloatMul,
    /// Float division.
    FloatDiv,
    /// Integer to float.
    IntToFloat,
    /// Float to integer.
    FloatToInt,
    /// Integer equality.
    IntEq,
    /// Integer less-than.
    IntLt,
    /// Integer greater-than.
    IntGt,
    /// Float equality.
    FloatEq,
    /// Float less-than.
    FloatLt,
    /// Float greater-than.
    FloatGt,
}

/// The capability that the physics world asks of a host function before it
/// runs it: each effect needs the capability for that effect (sensors,
/// actuators, the clock, creating and terminating actors, the network,
/// storage); pure arithmetic and comparison need none.
pub open spec fn host_function_capability(h: HostFunction) -> Option<Capability> {
    match h {
        HostFunction::ReadSensor => Some(Capability::IoReadSensor),
        HostFunction::WriteActuator => Some(Capability::IoWriteActuator),
        HostFunction::GetWallClockNs => Some(Capability::SysClock),
        HostFunction::SpawnActor => Some(Capability::SysCreateActor),
        HostFunction::TerminateActor => Some(Capability::SysTerminateActor),
        HostFunction::NetworkSend => Some(Capability::IoNetwork),
        HostFunction::NetworkReceive => Some(Capability::IoNetwork),
        HostFunction::PersistWrite => Some(Capability::IoPersist),
        HostFunction::PersistRead => Some(Capability::IoPersist),
        _ => None,
    }
}

/// The number by which a `HostCall` names a host function: its position in
/// the declaration of `HostFunction`, counting from 0.
pub open spec fn host_function_number(h: HostFunction) -> u16 {
    match h {
        HostFunction::ReadSensor => 0,
        HostFunction::WriteActuator => 1,
        HostFunction::GetWallClockNs => 2,
        HostFunction::SpawnActor => 3,
        HostFunction::TerminateActor => 4,
        HostFunction::NetworkSend => 5,
        HostFunction::NetworkReceive => 6,
        HostFunction::PersistWrite => 7,
        HostFunction::PersistRead => 8,
        HostFunction::IntAdd => 9,
        HostFunction::IntSub => 10,
        HostFunction::IntMul => 11,
        HostFunction::IntDiv => 12,
        HostFunction::IntMod => 13,
        HostFunction::FloatAdd => 14,
        HostFunction::FloatSub => 15,
        HostFunction::FloatMul => 16,
        HostFunction::FloatDiv => 17,
        HostFunction::IntToFloat => 18,
        HostFunction::FloatToInt => 19,
        HostFunction::IntEq => 20,
        HostFunction::IntLt => 21,
        HostFunction::IntGt => 22,
        HostFunction::FloatEq => 23,
        HostFunction::FloatLt => 24,
        HostFunction::FloatGt => 25,
    }
}

/// Computes `host_function_number`.
pub fn host_function_id(h: HostFunction) -> (r: u16)
    ensures
        r == host_function_number(h),
{
    match h {
        HostFunction::ReadSensor => 0,
        HostFunction::WriteActuator => 1,
        HostFunction::GetWallClockNs => 2,
        HostFunction::SpawnActor => 3,
        HostFunction::TerminateActor => 4,
        HostFunction::NetworkSend => 5,
        HostFunction::NetworkReceive => 6,
        HostFunction::PersistWrite => 7,
        HostFunction::PersistRead => 8,
        HostFunction::IntAdd => 9,
        HostFunction::IntSub => 10,
        HostFunction::IntMul => 11,
        HostFunction::IntDiv => 12,
        HostFunction::IntMod => 13,
        HostFunction::FloatAdd => 14,
        HostFunction::FloatSub => 15,
        HostFunction::FloatMul => 16,
        HostFunction::FloatDiv => 17,
        HostFunction::IntToFloat => 18,
        HostFunction::FloatToInt => 19,
        HostFunction::IntEq => 20,
        HostFunction::IntLt => 21,
        HostFunction::IntGt => 22,
        HostFunction::FloatEq => 23,
        HostFunction::FloatLt => 24,
        HostFunction::FloatGt => 25,
    }
}

/// One instruction of the stack machine.
///
/// A float operand is carried as the decimal text it was written with.
#[derive(Debug, Clone, PartialEq)]
pub enum OpCode {
    /// Push nil.
    Nil,
    /// Push a boolean.
    Bool(bool),
    /// Push an integer.
    Int(i64),
    /// Push a float, given by its decimal text.
    Float(String),
    /// Push the symbol with this constant index.
    Symbol(usize),
    /// Push the string with this constant index.
    LoadString(usize),
    /// Push a local variable.
    GetLocal(u16),
    /// Pop into a local variable.
    SetLocal(u16),
    /// Call a closure with this many arguments.
    Call(u16),
    /// Call in tail position with this many arguments.
    TailCall(u16),
    /// Make a closure from a code index and a capture count.
    MakeClosure(usize, usize),
    /// Jump by a relative offset.
    Jmp(i16),
    /// Pop a value and jump by a relative offset when it is false.
    JmpIfFalse(i16),
    /// Call a host function.
    HostCall {
        /// Index of the capability that guards the call.
        cap_idx: usize,
        /// Number of the host function.
        func_id: u16,
        /// Number of arguments.
        args: u8,
    },
    /// Push whether the capability with this index is held.
    HasCap(usize),
    /// Request a capability.
    RequestCap(usize, usize),
    /// Grant a capability.
    GrantCap(usize, usize),
    /// Revoke a capability.
    RevokeCap(usize, usize),
    /// Integer addition.
    Add,
    /// Integer subtraction.
    Sub,
    /// Integer multiplication.
    Mul,
    /// Integer division.
    Div,
    /// Integer remainder.
    Mod,
    /// Float addition.
    FAdd,
    /// Float subtraction.
    FSub,
    /// Float multiplication.
    FMul,
    /// Float division.
    FDiv,
    /// Equality.
    Eq,
    /// Less-than.
    Lt,
    /// Greater-than.
    Gt,
    /// Less-or-equal.
    Lte,
    /// Greater-or-equal.
    Gte,
    /// Inequality.
    Ne,
    /// String concatenation.
    StrConcat,
    /// Build a pair.
    Cons,
    /// Duplicate the top of the stack.
    Dup,
    /// Swap the two topmost values.
    Swap,
    /// Set up resource monitoring for a sandbox.
    InitSandbox,
    /// Isolate the capabilities of a sandbox.
    IsolateCapabilities,
    /// Install an error handler at a relative offset.
    SetErrorHandler(i16),
    /// Tear a sandbox down.
    CleanupSandbox,
    /// Record a sandbox violation.
    LogSandboxViolation,
}

/// A constant of the stack machine.
#[derive(Debug, Clone, PartialEq)]
pub enum Value {
    /// Nil.
    Nil,
    /// A boolean.
    Bool(bool),
    /// An integer.
    Int(i64),
    /// A float, given by its decimal text.
    Float(String),
    /// A string.
    String(String),
    /// A symbol, by constant index.
    Symbol(usize),
    /// A pair, by heap address.
    Pair(u32),
    /// A closure, by heap address.
    Closure(u32),
    /// An actor identifier.
    ActorId(u32),
    /// A capability.
    Capability(Capability),
    /// A collected pointer.
    GcPtr(u32),
}

/// The name under which a capability is written in diagnostics (its
/// variant name, as `{:?}` writes it).
pub open spec fn capability_name_spec(c: Capability) -> Seq<char> {
    match c {
        Capability::MetaSelfModify => "MetaSelfModify"@,
        Capability::MetaGrant => "MetaGrant"@,
        Capability::MacroHygienic => "MacroHygienic"@,
        Capability::MacroUnsafe => "MacroUnsafe"@,
        Capability::ComptimeEval => "ComptimeEval"@,
        Capability::IoReadSensor => "IoReadSensor"@,
        Capability::IoWriteActuator => "IoWriteActuator"@,
        Capability::IoNetwork => "IoNetwork"@,
        Capability::IoPersist => "IoPersist"@,
        Capability::SysCreateActor => "SysCreateActor"@,
        Capability::SysTerminateActor => "SysTerminateActor"@,
        Capability::SysClock => "SysClock"@,
    }
}

/// The variant name of a capability.
pub fn capability_name(c: Capability) -> (r: &'static str)
    ensures
        r@ == capability_name_spec(c),
{
    match c {
        Capability::MetaSelfModify => "MetaSelfModify",
        Capability::MetaGrant => "MetaGrant",
        Capability::MacroHygienic => "MacroHygienic",
        Capability::MacroUnsafe => "MacroUnsafe",
        Capability::ComptimeEval => "ComptimeEval",
        Capability::IoReadSensor => "IoReadSensor",
        Capability::IoWriteActuator => "IoWriteActuator",
        Capability::IoNetwork => "IoNetwork",
        Capability::IoPersist => "IoPersist",
        Capability::SysCreateActor => "SysCreateActor",
        Capability::SysTerminateActor => "SysTerminateActor",
        Capability::SysClock => "SysClock",
    }
}

/// The capability whose variant name is `s`, if there is one.
pub open spec fn capability_from_name_spec(s: Seq<char>) -> Option<Capability> {
    if s == "MetaSelfModify"@ { Some(Capability::MetaSelfModify) }
    else if s == "MetaGrant"@ { Some(Capability::MetaGrant) }
    else if s == "MacroHygienic"@ { Some(Capability::MacroHygienic) }
    else if s == "MacroUnsafe"@ { Some(Capability::MacroUnsafe) }
    else if s == "ComptimeEval"@ { Some(Capability::ComptimeEval) }
    else if s == "IoReadSensor"@ { Some(Capability::IoReadSensor) }
    else if s == "IoWriteActuator"@ { Some(Capability::IoWriteActuator) }
    else if s == "IoNetwork"@ { Some(Capability::IoNetwork) }
    else if s == "IoPersist"@ { Some(Capability::IoPersist) }
    else if s == "SysCreateActor"@ { Some(Capability::SysCreateActor) }
    else if s == "SysTerminateActor"@ { Some(Capability::SysTerminateActor) }
    else if s == "SysClock"@ { Some(Capability::SysClock) }
    else { None }
}

/// Maps a capability's variant name (such as `"IoReadSensor"`) to the
/// capability.
pub fn string_to_capability(name: &str) -> (r: Option<Capability>)
    ensures
        r == capability_from_name_spec(name@),
{
    if str_eq(name, "MetaSelfModify") { Some(Capability::MetaSelfModify) }
    else if str_eq(name, "MetaGrant") { Some(Capability::MetaGrant) }
    else if str_eq(name, "MacroHygienic") { Some(Capability::MacroHygienic) }
    else if str_eq(name, "MacroUnsafe") { Some(Capability::MacroUnsafe) }
    else if str_eq(name, "ComptimeEval") { Some(Capability::ComptimeEval) }
    else if str_eq(name, "IoReadSensor") { Some(Capability::IoReadSensor) }
    else if str_eq(name, "IoWriteActuator") { Some(Capability::IoWriteActuator) }
    else if str_eq(name, "IoNetwork") { Some(Capability::IoNetwork) }
    else if str_eq(name, "IoPersist") { Some(Capability::IoPersist) }
    else if str_eq(name, "SysCreateActor") { Some(Capability::SysCreateActor) }
    else if str_eq(name, "SysTerminateActor") { Some(Capability::SysTerminateActor) }
    else if str_eq(name, "SysClock") { Some(Capability::SysClock) }
    else { None }
}

/// The capability written in kebab case (such as `"io-read-sensor"`).
pub open spec fn capability_from_kebab_spec(s: Seq<char>) -> Option<Capability> {
    if s == "meta-self-modify"@ { Some(Capability::MetaSelfModify) }
    else if s == "meta-grant"@ { Some(Capability::MetaGrant) }
    else if s == "macro-hygienic"@ { Some(Capability::MacroHygienic) }
    else if s == "macro-unsafe"@ { Some(Capability::MacroUnsafe) }
    else if s == "comptime-eval"@ { Some(Capability::ComptimeEval) }
    else if s == "io-read-sensor"@ { Some(Capability::IoReadSensor) }
    else if s == "io-write-actuator"@ { Some(Capability::IoWriteActuator) }
    else if s == "io-network"@ { Some(Capability::IoNetwork) }
    else if s == "io-persist"@ { Some(Capability::IoPersist) }
    else if s == "sys-create-actor"@ { Some(Capability::SysCreateActor) }
    else if s == "sys-terminate-actor"@ { Some(Capability::SysTerminateActor) }
    else if s == "sys-clock"@ { Some(Capability::SysClock) }
    else { None }
}

/// Maps a kebab-case capability name to the capability.
pub fn kebab_to_capability(name: &str) -> (r: Option<Capability>)
    ensures
        r == capability_from_kebab_spec(name@),
{
    if str_eq(name, "meta-self-modify") { Some(Capability::MetaSelfModify) }
    else if str_eq(name, "meta-grant") { Some(Capability::MetaGrant) }
    else if str_eq(name, "macro-hygienic") { Some(Capability::MacroHygienic) }
    else if str_eq(name, "macro-unsafe") { Some(Capability::MacroUnsafe) }
    else if str_eq(name, "comptime-eval") { Some(Capability::ComptimeEval) }
    else if str_eq(name, "io-read-sensor") { Some(Capability::IoReadSensor) }
    else if str_eq(name, "io-write-actuator") { Some(Capability::IoWriteActuator) }
    else if str_eq(name, "io-network") { Some(Capability::IoNetwork) }
    else if str_eq(name, "io-persist") { Some(Capability::IoPersist) }
    else if str_eq(name, "sys-create-actor") { Some(Capability::SysCreateActor) }
    else if str_eq(name, "sys-terminate-actor") { Some(Capability::SysTerminateActor) }
    else if str_eq(name, "sys-clock") { Some(Capability::SysClock) }
    else { None }
}

} // verus!
