//! The default foreign function registry of the compiler front end.
use vstd::prelude::*;
use crate::global_ffi_registry::FfiRegistry;

verus! {

/// The registry the compiler starts from: an empty one, to which programs
/// add what they need.
pub fn create_standard_ffi_registry() -> (r: FfiRegistry)
    ensures
        r.wf(),
        r.functions@.len() == 0,
        r.capability_indices@.len() == 0,
{
    FfiRegistry::new()
}

} // verus!
