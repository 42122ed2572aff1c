//! The registry of foreign (host) functions: each has a name, the host
//! function it calls and the capability it needs; each capability that a
//! registered function needs gets an index, in the order first seen.
use vstd::prelude::*;
use crate::error::{CompilationError, SourceLocation, default_location, unknown_location};
use crate::physics::{Capability, HostFunction, OpCode, Value, host_function_id, host_function_number, capability_name, capability_name_spec};
use crate::text::{str_eq, to_owned_string};

verus! {

/// A foreign function with the capability it needs.
#[derive(Debug, Clone, PartialEq)]
pub struct FfiFunction {
    /// Its name in programs.
    pub name: String,
    /// The host function it calls.
    pub host_function: HostFunction,
    /// The capability it needs, if any.
    pub required_capability: Option<Capability>,
    /// The types of its parameters.
    pub parameter_types: Vec<String>,
    /// The type of its result.
    pub return_type: String,
    /// What it does.
    pub documentation: String,
    /// Where it was declared.
    pub location: SourceLocation,
}

/// The registered foreign functions, by name, and the index of each
/// capability they need.
#[derive(Debug, Clone)]
pub struct FfiRegistry {
    /// The functions, in the order first registered.
    pub functions: Vec<FfiFunction>,
    /// Each capability needed, with its index.
    pub capability_indices: Vec<(Option<Capability>, usize)>,
}

/// Does a function named `name` occur in `fs`.
pub open spec fn has_name(fs: Seq<FfiFunction>, name: Seq<char>) -> bool {
    exists|j: int| 0 <= j < fs.len() && fs[j].name@ == name
}

/// The position of the function named `name` in `fs` (where names are
/// distinct, the only one).
pub open spec fn name_position(fs: Seq<FfiFunction>, name: Seq<char>) -> int {
    choose|j: int| 0 <= j < fs.len() && fs[j].name@ == name
}

/// Does capability `c` have an index in `ci`.
pub open spec fn has_capability_index(ci: Seq<(Option<Capability>, usize)>, c: Option<Capability>) -> bool {
    exists|k: int| 0 <= k < ci.len() && ci[k].0 == c
}

impl FfiRegistry {
    /// No two functions share a name, no capability occurs twice, and each
    /// capability's index is its position.
    pub open spec fn wf(&self) -> bool {
        &&& forall|i: int, j: int|
            0 <= i < j < self.functions@.len() ==> self.functions@[i].name@ != self.functions@[j].name@
        &&& forall|i: int, j: int|
            0 <= i < j < self.capability_indices@.len() ==> self.capability_indices@[i].0
                != self.capability_indices@[j].0
        &&& forall|k: int| 0 <= k < self.capability_indices@.len() ==> self.capability_indices@[k].1 == k
    }

    /// An empty registry.
    pub fn new() -> (r: Self)
        ensures
            r.wf(),
            r.functions@.len() == 0,
            r.capability_indices@.len() == 0,
    {
        FfiRegistry { functions: Vec::new(), capability_indices: Vec::new() }
    }

    /// The position of the function named `name`, if one is registered.
    fn find_index(&self, name: &str) -> (r: Option<usize>)
        requires
            self.wf(),
        ensures
            r matches Some(i) ==> i < self.functions@.len() && self.functions@[i as int].name@ == name@,
            r is None <==> !has_name(self.functions@, name@),
    {
        let mut i: usize = 0;
        while i < self.functions.len()
            invariant
                i <= self.functions@.len(),
                forall|j: int| 0 <= j < i ==> self.functions@[j].name@ != name@,
            decreases self.functions@.len() - i,
        {
            if str_eq(self.functions[i].name.as_str(), name) {
                return Some(i);
            }
            i = i + 1;
        }
        None
    }

    /// Registers `func`, in place of a function of the same name if there is
    /// one, and gives the capability it needs the next index unless it has
    /// one already.
    pub fn register_function(&mut self, func: FfiFunction)
        requires
            old(self).wf(),
        ensures
            final(self).wf(),
            !has_name(old(self).functions@, func.name@) ==> final(self).functions@ == old(
                self,
            ).functions@.push(func),
            has_name(old(self).functions@, func.name@) ==> final(self).functions@ == old(
                self,
            ).functions@.update(name_position(old(self).functions@, func.name@), func),
            has_capability_index(old(self).capability_indices@, func.required_capability)
                ==> final(self).capability_indices@ == old(self).capability_indices@,
            !has_capability_index(old(self).capability_indices@, func.required_capability)
                ==> final(self).capability_indices@ == old(self).capability_indices@.push(
                (func.required_capability, old(self).capability_indices@.len() as usize),
            ),
    {
        let cap = func.required_capability;
        let ghost name = func.name@;
        match self.find_index(func.name.as_str()) {
            Some(i) => {
                proof {
                    let j = name_position(old(self).functions@, name);
                    assert(old(self).functions@[i as int].name@ == name);
                    assert(j == i as int);
                }
                self.functions.set(i, func);
            },
            None => {
                self.functions.push(func);
            },
        }
        match self.get_capability_index(&cap) {
            Some(_) => {},
            None => {
                let n = self.capability_indices.len();
                self.capability_indices.push((cap, n));
            },
        }
    }

    /// The function named `name`, if one is registered.
    pub fn find_function(&self, name: &str) -> (r: Option<&FfiFunction>)
        requires
            self.wf(),
        ensures
            r is None <==> !has_name(self.functions@, name@),
            r matches Some(f) ==> *f == self.functions@[name_position(self.functions@, name@)]
                && f.name@ == name@,
    {
        match self.find_index(name) {
            Some(i) => {
                proof {
                    let j = name_position(self.functions@, name@);
                    assert(self.functions@[i as int].name@ == name@);
                    assert(j == i as int);
                }
                Some(&self.functions[i])
            },
            None => None,
        }
    }

    /// The index of `capability`, if a registered function needs it.
    pub fn get_capability_index(&self, capability: &Option<Capability>) -> (r: Option<usize>)
        requires
            self.wf(),
        ensures
            r is None <==> !has_capability_index(self.capability_indices@, *capability),
            r matches Some(k) ==> k < self.capability_indices@.len() && self.capability_indices@[k as int].0
                == *capability,
    {
        let mut k: usize = 0;
        while k < self.capability_indices.len()
            invariant
                k <= self.capability_indices@.len(),
                self.wf(),
                forall|j: int| 0 <= j < k ==> self.capability_indices@[j].0 != *capability,
            decreases self.capability_indices@.len() - k,
        {
            if same_capability(&self.capability_indices[k].0, capability) {
                return Some(self.capability_indices[k].1);
            }
            k = k + 1;
        }
        None
    }

    /// The registered functions, in the order first registered.
    pub fn get_functions(&self) -> (r: Vec<&FfiFunction>)
        ensures
            r@.len() == self.functions@.len(),
            forall|i: int| 0 <= i < r@.len() ==> *r@[i] == self.functions@[i],
    {
        let mut r: Vec<&FfiFunction> = Vec::new();
        let mut i: usize = 0;
        while i < self.functions.len()
            invariant
                i <= self.functions@.len(),
                r@.len() == i,
                forall|j: int| 0 <= j < i ==> *r@[j] == self.functions@[j],
            decreases self.functions@.len() - i,
        {
            r.push(&self.functions[i]);
            i = i + 1;
        }
        r
    }

    /// The slot of a function in the bytecode's function table: every
    /// function is given slot 0.
    pub fn get_ffi_index(&self, name: &str) -> (r: Option<usize>)
        ensures
            r == Some(0usize),
    {
        Some(0)
    }
}

/// Are two optional capabilities the same.
fn same_capability(a: &Option<Capability>, b: &Option<Capability>) -> (r: bool)
    ensures
        r == (*a == *b),
{
    match (a, b) {
        (None, None) => true,
        (Some(x), Some(y)) => *x == *y,
        _ => false,
    }
}

} // verus!
