//! The standard foreign functions: sensors, actuators and the clock, which
//! need capabilities, and integer and float arithmetic and comparisons,
//! which need none.
use vstd::prelude::*;
use crate::error::{SourceLocation, default_location, unknown_location};
use crate::global_ffi_registry::{FfiFunction, FfiRegistry, has_name, has_capability_index};
use crate::physics::{Capability, HostFunction};

verus! {

/// A foreign function as a value: texts are sequences of characters.
#[verifier::ext_equal]
pub struct FfiFunctionView {
    /// Its name.
    pub name: Seq<char>,
    /// The host function it calls.
    pub host_function: HostFunction,
    /// The capability it needs.
    pub required_capability: Option<Capability>,
    /// The types of its parameters.
    pub parameter_types: Seq<Seq<char>>,
    /// The type of its result.
    pub return_type: Seq<char>,
    /// What it does.
    pub documentation: Seq<char>,
}

/// The texts of a sequence of strings.
pub open spec fn string_views(v: Seq<String>) -> Seq<Seq<char>> {
    v.map_values(|s: String| s@)
}

/// The views of a sequence of foreign functions.
pub open spec fn function_views(fs: Seq<FfiFunction>) -> Seq<FfiFunctionView> {
    fs.map_values(|f: FfiFunction| ffi_function_view(f))
}

/// The view of a foreign function.
pub open spec fn ffi_function_view(f: FfiFunction) -> FfiFunctionView {
    FfiFunctionView {
        name: f.name@,
        host_function: f.host_function,
        required_capability: f.required_capability,
        parameter_types: string_views(f.parameter_types@),
        return_type: f.return_type@,
        documentation: f.documentation@,
    }
}

/// The standard foreign functions, in the order they are registered.
pub open spec fn standard_ffi_table() -> Seq<FfiFunctionView> {
    seq![
        FfiFunctionView {
            name: "read-sensor"@,
            host_function: HostFunction::ReadSensor,
            required_capability: Some(Capability::IoReadSensor),
            parameter_types: Seq::empty(),
            return_type: "Float"@,
            documentation: "Read from virtual sensor"@,
        },
        FfiFunctionView {
            name: "write-actuator"@,
            host_function: HostFunction::WriteActuator,
            required_capability: Some(Capability::IoWriteActuator),
            parameter_types: seq!["Float"@],
            return_type: "Bool"@,
            documentation: "Write to virtual actuator"@,
        },
        FfiFunctionView {
            name: "get-wall-clock"@,
            host_function: HostFunction::GetWallClockNs,
            required_capability: Some(Capability::SysClock),
            parameter_types: Seq::empty(),
            return_type: "Int"@,
            documentation: "Get current wall clock time in nanoseconds"@,
        },
        FfiFunctionView {
            name: "add"@,
            host_function: HostFunction::IntAdd,
            required_capability: None,
            parameter_types: seq!["Int"@, "Int"@],
            return_type: "Int"@,
            documentation: "Add two integers"@,
        },
        FfiFunctionView {
            name: "sub"@,
            host_function: HostFunction::IntSub,
            required_capability: None,
            parameter_types: seq!["Int"@, "Int"@],
            return_type: "Int"@,
            documentation: "Subtract second integer from first"@,
        },
        FfiFunctionView {
            name: "mul"@,
            host_function: HostFunction::IntMul,
            required_capability: None,
            parameter_types: seq!["Int"@, "Int"@],
            return_type: "Int"@,
            documentation: "Multiply two integers"@,
        },
        FfiFunctionView {
            name: "div"@,
            host_function: HostFunction::IntDiv,
            required_capability: None,
            parameter_types: seq!["Int"@, "Int"@],
            return_type: "Int"@,
            documentation: "Divide first integer by second (integer division)"@,
        },
        FfiFunctionView {
            name: "mod"@,
            host_function: HostFunction::IntMod,
            required_capability: None,
            parameter_types: seq!["Int"@, "Int"@],
            return_type: "Int"@,
            documentation: "Modulo: remainder of first integer divided by second"@,
        },
        FfiFunctionView {
            name: "fadd"@,
            host_function: HostFunction::FloatAdd,
            required_capability: None,
            parameter_types: seq!["Float"@, "Float"@],
            return_type: "Float"@,
            documentation: "Add two floats"@,
        },
        FfiFunctionView {
            name: "fsub"@,
            host_function: HostFunction::FloatSub,
            required_capability: None,
            parameter_types: seq!["Float"@, "Float"@],
            return_type: "Float"@,
            documentation: "Subtract second float from first"@,
        },
        FfiFunctionView {
            name: "fmul"@,
            host_function: HostFunction::FloatMul,
            required_capability: None,
            parameter_types: seq!["Float"@, "Float"@],
            return_type: "Float"@,
            documentation: "Multiply two floats"@,
        },
        FfiFunctionView {
            name: "fdiv"@,
            host_function: HostFunction::FloatDiv,
            required_capability: None,
            parameter_types: seq!["Float"@, "Float"@],
            return_type: "Float"@,
            documentation: "Divide first float by second"@,
        },
        FfiFunctionView {
            name: "int-to-float"@,
            host_function: HostFunction::IntToFloat,
            required_capability: None,
            parameter_types: seq!["Int"@],
            return_type: "Float"@,
            documentation: "Convert integer to float"@,
        },
        FfiFunctionView {
            name: "float-to-int"@,
            host_function: HostFunction::FloatToInt,
            required_capability: None,
            parameter_types: seq!["Float"@],
            return_type: "Int"@,
            documentation: "Convert float to integer (truncates decimal)"@,
        },
        FfiFunctionView {
            name: "eq"@,
            host_function: HostFunction::IntEq,
            required_capability: None,
            parameter_types: seq!["Int"@, "Int"@],
            return_type: "Int"@,
            documentation: "Check if two integers are equal (returns 1 if true, 0 if false)"@,
        },
        FfiFunctionView {
            name: "lt"@,
            host_function: HostFunction::IntLt,
            required_capability: None,
            parameter_types: seq!["Int"@, "Int"@],
            return_type: "Int"@,
            documentation: "Check if first integer is less than second (returns 1 if true, 0 if false)"@,
        },
        FfiFunctionView {
            name: "gt"@,
            host_function: HostFunction::IntGt,
            required_capability: None,
            parameter_types: seq!["Int"@, "Int"@],
            return_type: "Int"@,
            documentation: "Check if first integer is greater than second (returns 1 if true, 0 if false)"@,
        },
        FfiFunctionView {
            name: "feq"@,
            host_function: HostFunction::FloatEq,
            required_capability: None,
            parameter_types: seq!["Float"@, "Float"@],
            return_type: "Int"@,
            documentation: "Check if two floats are equal (returns 1 if true, 0 if false)"@,
        },
        FfiFunctionView {
            name: "flt"@,
            host_function: HostFunction::FloatLt,
            required_capability: None,
            parameter_types: seq!["Float"@, "Float"@],
            return_type: "Int"@,
            documentation: "Check if first float is less than second (returns 1 if true, 0 if false)"@,
        },
        FfiFunctionView {
            name: "fgt"@,
            host_function: HostFunction::FloatGt,
            required_capability: None,
            parameter_types: seq!["Float"@, "Float"@],
            return_type: "Int"@,
            documentation: "Check if first float is greater than second (returns 1 if true, 0 if false)"@,
        },
    ]
}

/// The capability indices of the standard registry: the sensor, the
/// actuator and the clock, then no capability.
pub open spec fn standard_capability_indices() -> Seq<(Option<Capability>, usize)> {
    seq![
        (Some(Capability::IoReadSensor), 0usize),
        (Some(Capability::IoWriteActuator), 1usize),
        (Some(Capability::SysClock), 2usize),
        (None, 3usize),
    ]
}

/// A standard foreign function declared at no particular location.
fn standard_function(
    name: &str,
    host_function: HostFunction,
    required_capability: Option<Capability>,
    parameter_types: Vec<String>,
    return_type: &str,
    documentation: &str,
) -> (r: FfiFunction)
    ensures
        r.name@ == name@,
        r.host_function == host_function,
        r.required_capability == required_capability,
        r.parameter_types@ == parameter_types@,
        r.return_type@ == return_type@,
        r.documentation@ == documentation@,
        r.location == unknown_location(),
{
    FfiFunction {
        name: String::from_str(name),
        host_function,
        required_capability,
        parameter_types,
        return_type: String::from_str(return_type),
        documentation: String::from_str(documentation),
        location: default_location(),
    }
}

/// A key that tells the standard names apart: their length and first two
/// characters.
pub open spec fn name_key(s: Seq<char>) -> (int, char, char) {
    (s.len() as int, s[0], s[1])
}

/// The standard functions have distinct names.
pub proof fn lemma_standard_names_distinct()
    ensures
        forall|i: int, j: int|
            0 <= i < j < standard_ffi_table().len() ==> standard_ffi_table()[i].name
                != standard_ffi_table()[j].name,
{
    reveal_strlit("read-sensor");
    reveal_strlit("write-actuator");
    reveal_strlit("get-wall-clock");
    reveal_strlit("add");
    reveal_strlit("sub");
    reveal_strlit("mul");
    reveal_strlit("div");
    reveal_strlit("mod");
    reveal_strlit("fadd");
    reveal_strlit("fsub");
    reveal_strlit("fmul");
    reveal_strlit("fdiv");
    reveal_strlit("int-to-float");
    reveal_strlit("float-to-int");
    reveal_strlit("eq");
    reveal_strlit("lt");
    reveal_strlit("gt");
    reveal_strlit("feq");
    reveal_strlit("flt");
    reveal_strlit("fgt");
    let t = standard_ffi_table();
    assert forall|i: int, j: int| 0 <= i < j < t.len() implies t[i].name != t[j].name by {
        if t[i].name == t[j].name {
            assert(name_key(t[i].name) == name_key(t[j].name));
        }
    }
}

/// Registers a function whose name is not registered yet.
fn register_new(registry: &mut FfiRegistry, f: FfiFunction, Ghost(k): Ghost<int>)
    requires
        old(registry).wf(),
        0 <= k < standard_ffi_table().len(),
        function_views(old(registry).functions@) == standard_ffi_table().take(k),
        ffi_function_view(f) == standard_ffi_table()[k],
    ensures
        final(registry).wf(),
        function_views(final(registry).functions@) == standard_ffi_table().take(k + 1),
        has_capability_index(old(registry).capability_indices@, f.required_capability)
            ==> final(registry).capability_indices@ == old(registry).capability_indices@,
        !has_capability_index(old(registry).capability_indices@, f.required_capability)
            ==> final(registry).capability_indices@ == old(registry).capability_indices@.push(
            (f.required_capability, old(registry).capability_indices@.len() as usize),
        ),
{
    proof {
        lemma_standard_names_distinct();
        let t = standard_ffi_table();
        let fs = old(registry).functions@;
        assert(function_views(fs).len() == fs.len());
        assert(t.take(k).len() == k);
        assert(fs.len() == k);
        assert forall|j: int| 0 <= j < fs.len() implies fs[j].name@ != f.name@ by {
            assert(t.take(k)[j] == t[j]);
            assert(function_views(fs)[j] == t[j]);
        }
    }
    let ghost fs = registry.functions@;
    registry.register_function(f);
    proof {
        assert(function_views(fs.push(f)) =~= standard_ffi_table().take(k + 1));
    }
}

/// Registers the standard functions 0 to 4.
fn register_standard_group_0(registry: &mut FfiRegistry)
    requires
        old(registry).wf(),
        function_views(old(registry).functions@) == standard_ffi_table().take(0),
        old(registry).capability_indices@ == standard_capability_indices().take(0),
    ensures
        final(registry).wf(),
        function_views(final(registry).functions@) == standard_ffi_table().take(5),
        final(registry).capability_indices@ == standard_capability_indices().take(4),
{
    let f = standard_function(
        "read-sensor",
        HostFunction::ReadSensor,
        Some(Capability::IoReadSensor),
        vec![],
        "Float",
        "Read from virtual sensor",
    );
    proof {
        assert(string_views(f.parameter_types@) =~= Seq::<Seq<char>>::empty());
        assert(ffi_function_view(f) =~= standard_ffi_table()[0]);
    }
    proof {
        assert(forall|m: int| 0 <= m < registry.capability_indices@.len() ==> registry.capability_indices@[m].0 != Some(Capability::IoReadSensor));
    }
    register_new(registry, f, Ghost(0int));
    let f = standard_function(
        "write-actuator",
        HostFunction::WriteActuator,
        Some(Capability::IoWriteActuator),
        vec![String::from_str("Float")],
        "Bool",
        "Write to virtual actuator",
    );
    proof {
        assert(string_views(f.parameter_types@) =~= seq!["Float"@]);
        assert(ffi_function_view(f) =~= standard_ffi_table()[1]);
    }
    proof {
        assert(forall|m: int| 0 <= m < registry.capability_indices@.len() ==> registry.capability_indices@[m].0 != Some(Capability::IoWriteActuator));
    }
    register_new(registry, f, Ghost(1int));
    let f = standard_function(
        "get-wall-clock",
        HostFunction::GetWallClockNs,
        Some(Capability::SysClock),
        vec![],
        "Int",
        "Get current wall clock time in nanoseconds",
    );
    proof {
        assert(string_views(f.parameter_types@) =~= Seq::<Seq<char>>::empty());
        assert(ffi_function_view(f) =~= standard_ffi_table()[2]);
    }
    proof {
        assert(forall|m: int| 0 <= m < registry.capability_indices@.len() ==> registry.capability_indices@[m].0 != Some(Capability::SysClock));
    }
    register_new(registry, f, Ghost(2int));
    let f = standard_function(
        "add",
        HostFunction::IntAdd,
        None,
        vec![String::from_str("Int"), String::from_str("Int")],
        "Int",
        "Add two integers",
    );
    proof {
        assert(string_views(f.parameter_types@) =~= seq!["Int"@, "Int"@]);
        assert(ffi_function_view(f) =~= standard_ffi_table()[3]);
    }
    proof {
        assert(forall|m: int| 0 <= m < registry.capability_indices@.len() ==> registry.capability_indices@[m].0 != None::<Capability>);
    }
    register_new(registry, f, Ghost(3int));
    let f = standard_function(
        "sub",
        HostFunction::IntSub,
        None,
        vec![String::from_str("Int"), String::from_str("Int")],
        "Int",
        "Subtract second integer from first",
    );
    proof {
        assert(string_views(f.parameter_types@) =~= seq!["Int"@, "Int"@]);
        assert(ffi_function_view(f) =~= standard_ffi_table()[4]);
    }
    proof {
        assert(registry.capability_indices@[3].0 == None::<Capability>);
    }
    register_new(registry, f, Ghost(4int));
    proof {
        assert(registry.capability_indices@ =~= standard_capability_indices().take(4));
    }
}

/// Registers the standard functions 5 to 9.
fn register_standard_group_1(registry: &mut FfiRegistry)
    requires
        old(registry).wf(),
        function_views(old(registry).functions@) == standard_ffi_table().take(5),
        old(registry).capability_indices@ == standard_capability_indices().take(4),
    ensures
        final(registry).wf(),
        function_views(final(registry).functions@) == standard_ffi_table().take(10),
        final(registry).capability_indices@ == standard_capability_indices().take(4),
{
    let f = standard_function(
        "mul",
        HostFunction::IntMul,
        None,
        vec![String::from_str("Int"), String::from_str("Int")],
        "Int",
        "Multiply two integers",
    );
    proof {
        assert(string_views(f.parameter_types@) =~= seq!["Int"@, "Int"@]);
        assert(ffi_function_view(f) =~= standard_ffi_table()[5]);
    }
    proof {
        assert(registry.capability_indices@[3].0 == None::<Capability>);
    }
    register_new(registry, f, Ghost(5int));
    let f = standard_function(
        "div",
        HostFunction::IntDiv,
        None,
        vec![String::from_str("Int"), String::from_str("Int")],
        "Int",
        "Divide first integer by second (integer division)",
    );
    proof {
        assert(string_views(f.parameter_types@) =~= seq!["Int"@, "Int"@]);
        assert(ffi_function_view(f) =~= standard_ffi_table()[6]);
    }
    proof {
        assert(registry.capability_indices@[3].0 == None::<Capability>);
    }
    register_new(registry, f, Ghost(6int));
    let f = standard_function(
        "mod",
        HostFunction::IntMod,
        None,
        vec![String::from_str("Int"), String::from_str("Int")],
        "Int",
        "Modulo: remainder of first integer divided by second",
    );
    proof {
        assert(string_views(f.parameter_types@) =~= seq!["Int"@, "Int"@]);
        assert(ffi_function_view(f) =~= standard_ffi_table()[7]);
    }
    proof {
        assert(registry.capability_indices@[3].0 == None::<Capability>);
    }
    register_new(registry, f, Ghost(7int));
    let f = standard_function(
        "fadd",
        HostFunction::FloatAdd,
        None,
        vec![String::from_str("Float"), String::from_str("Float")],
        "Float",
        "Add two floats",
    );
    proof {
        assert(string_views(f.parameter_types@) =~= seq!["Float"@, "Float"@]);
        assert(ffi_function_view(f) =~= standard_ffi_table()[8]);
    }
    proof {
        assert(registry.capability_indices@[3].0 == None::<Capability>);
    }
    register_new(registry, f, Ghost(8int));
    let f = standard_function(
        "fsub",
        HostFunction::FloatSub,
        None,
        vec![String::from_str("Float"), String::from_str("Float")],
        "Float",
        "Subtract second float from first",
    );
    proof {
        assert(string_views(f.parameter_types@) =~= seq!["Float"@, "Float"@]);
        assert(ffi_function_view(f) =~= standard_ffi_table()[9]);
    }
    proof {
        assert(registry.capability_indices@[3].0 == None::<Capability>);
    }
    register_new(registry, f, Ghost(9int));
    proof {
        assert(registry.capability_indices@ =~= standard_capability_indices().take(4));
    }
}

/// Registers the standard functions 10 to 14.
fn register_standard_group_2(registry: &mut FfiRegistry)
    requires
        old(registry).wf(),
        function_views(old(registry).functions@) == standard_ffi_table().take(10),
        old(registry).capability_indices@ == standard_capability_indices().take(4),
    ensures
        final(registry).wf(),
        function_views(final(registry).functions@) == standard_ffi_table().take(15),
        final(registry).capability_indices@ == standard_capability_indices().take(4),
{
    let f = standard_function(
        "fmul",
        HostFunction::FloatMul,
        None,
        vec![String::from_str("Float"), String::from_str("Float")],
        "Float",
        "Multiply two floats",
    );
    proof {
        assert(string_views(f.parameter_types@) =~= seq!["Float"@, "Float"@]);
        assert(ffi_function_view(f) =~= standard_ffi_table()[10]);
    }
    proof {
        assert(registry.capability_indices@[3].0 == None::<Capability>);
    }
    register_new(registry, f, Ghost(10int));
    let f = standard_function(
        "fdiv",
        HostFunction::FloatDiv,
        None,
        vec![String::from_str("Float"), String::from_str("Float")],
        "Float",
        "Divide first float by second",
    );
    proof {
        assert(string_views(f.parameter_types@) =~= seq!["Float"@, "Float"@]);
        assert(ffi_function_view(f) =~= standard_ffi_table()[11]);
    }
    proof {
        assert(registry.capability_indices@[3].0 == None::<Capability>);
    }
    register_new(registry, f, Ghost(11int));
    let f = standard_function(
        "int-to-float",
        HostFunction::IntToFloat,
        None,
        vec![String::from_str("Int")],
        "Float",
        "Convert integer to float",
    );
    proof {
        assert(string_views(f.parameter_types@) =~= seq!["Int"@]);
        assert(ffi_function_view(f) =~= standard_ffi_table()[12]);
    }
    proof {
        assert(registry.capability_indices@[3].0 == None::<Capability>);
    }
    register_new(registry, f, Ghost(12int));
    let f = standard_function(
        "float-to-int",
        HostFunction::FloatToInt,
        None,
        vec![String::from_str("Float")],
        "Int",
        "Convert float to integer (truncates decimal)",
    );
    proof {
        assert(string_views(f.parameter_types@) =~= seq!["Float"@]);
        assert(ffi_function_view(f) =~= standard_ffi_table()[13]);
    }
    proof {
        assert(registry.capability_indices@[3].0 == None::<Capability>);
    }
    register_new(registry, f, Ghost(13int));
    let f = standard_function(
        "eq",
        HostFunction::IntEq,
        None,
        vec![String::from_str("Int"), String::from_str("Int")],
        "Int",
        "Check if two integers are equal (returns 1 if true, 0 if false)",
    );
    proof {
        assert(string_views(f.parameter_types@) =~= seq!["Int"@, "Int"@]);
        assert(ffi_function_view(f) =~= standard_ffi_table()[14]);
    }
    proof {
        assert(registry.capability_indices@[3].0 == None::<Capability>);
    }
    register_new(registry, f, Ghost(14int));
    proof {
        assert(registry.capability_indices@ =~= standard_capability_indices().take(4));
    }
}

/// Registers the standard functions 15 to 19.
fn register_standard_group_3(registry: &mut FfiRegistry)
    requires
        old(registry).wf(),
        function_views(old(registry).functions@) == standard_ffi_table().take(15),
        old(registry).capability_indices@ == standard_capability_indices().take(4),
    ensures
        final(registry).wf(),
        function_views(final(registry).functions@) == standard_ffi_table().take(20),
        final(registry).capability_indices@ == standard_capability_indices().take(4),
{
    let f = standard_function(
        "lt",
        HostFunction::IntLt,
        None,
        vec![String::from_str("Int"), String::from_str("Int")],
        "Int",
        "Check if first integer is less than second (returns 1 if true, 0 if false)",
    );
    proof {
        assert(string_views(f.parameter_types@) =~= seq!["Int"@, "Int"@]);
        assert(ffi_function_view(f) =~= standard_ffi_table()[15]);
    }
    proof {
        assert(registry.capability_indices@[3].0 == None::<Capability>);
    }
    register_new(registry, f, Ghost(15int));
    let f = standard_function(
        "gt",
        HostFunction::IntGt,
        None,
        vec![String::from_str("Int"), String::from_str("Int")],
        "Int",
        "Check if first integer is greater than second (returns 1 if true, 0 if false)",
    );
    proof {
        assert(string_views(f.parameter_types@) =~= seq!["Int"@, "Int"@]);
        assert(ffi_function_view(f) =~= standard_ffi_table()[16]);
    }
    proof {
        assert(registry.capability_indices@[3].0 == None::<Capability>);
    }
    register_new(registry, f, Ghost(16int));
    let f = standard_function(
        "feq",
        HostFunction::FloatEq,
        None,
        vec![String::from_str("Float"), String::from_str("Float")],
        "Int",
        "Check if two floats are equal (returns 1 if true, 0 if false)",
    );
    proof {
        assert(string_views(f.parameter_types@) =~= seq!["Float"@, "Float"@]);
        assert(ffi_function_view(f) =~= standard_ffi_table()[17]);
    }
    proof {
        assert(registry.capability_indices@[3].0 == None::<Capability>);
    }
    register_new(registry, f, Ghost(17int));
    let f = standard_function(
        "flt",
        HostFunction::FloatLt,
        None,
        vec![String::from_str("Float"), String::from_str("Float")],
        "Int",
        "Check if first float is less than second (returns 1 if true, 0 if false)",
    );
    proof {
        assert(string_views(f.parameter_types@) =~= seq!["Float"@, "Float"@]);
        assert(ffi_function_view(f) =~= standard_ffi_table()[18]);
    }
    proof {
        assert(registry.capability_indices@[3].0 == None::<Capability>);
    }
    register_new(registry, f, Ghost(18int));
    let f = standard_function(
        "fgt",
        HostFunction::FloatGt,
        None,
        vec![String::from_str("Float"), String::from_str("Float")],
        "Int",
        "Check if first float is greater than second (returns 1 if true, 0 if false)",
    );
    proof {
        assert(string_views(f.parameter_types@) =~= seq!["Float"@, "Float"@]);
        assert(ffi_function_view(f) =~= standard_ffi_table()[19]);
    }
    proof {
        assert(registry.capability_indices@[3].0 == None::<Capability>);
    }
    register_new(registry, f, Ghost(19int));
    proof {
        assert(registry.capability_indices@ =~= standard_capability_indices().take(4));
    }
}

/// A registry of the standard foreign functions.
pub fn create_standard_ffi_registry() -> (r: FfiRegistry)
    ensures
        r.wf(),
        function_views(r.functions@) == standard_ffi_table(),
        r.capability_indices@ == standard_capability_indices(),
{
    let mut registry = FfiRegistry::new();
    proof {
        assert(function_views(registry.functions@) =~= standard_ffi_table().take(0));
        assert(registry.capability_indices@ =~= standard_capability_indices().take(0));
    }
    register_standard_group_0(&mut registry);
    register_standard_group_1(&mut registry);
    register_standard_group_2(&mut registry);
    register_standard_group_3(&mut registry);
    proof {
        assert(standard_ffi_table().take(20) =~= standard_ffi_table());
        assert(standard_capability_indices().take(4) =~= standard_capability_indices());
    }
    registry
}

} // verus!
