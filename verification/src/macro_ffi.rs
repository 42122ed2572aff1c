//! Which foreign functions macros may call: those named after a capability
//! that the macro's trust tier grants.
use vstd::prelude::*;
use crate::ast::{AstNode, Literal};
use crate::error::CompilationError;
use crate::physics::{capability_name, capability_name_spec};
use crate::text::str_eq;
use crate::trust_tier::{TrustTier, granted_seq, tier_name_spec};

verus! {

/// The foreign calls a macro of some tier may make.
pub struct MacroFfiContext {
    /// The tier.
    pub trust_tier: TrustTier,
    /// The names allowed: those of the capabilities the tier grants.
    pub allowed_ffi: Vec<String>,
}

/// The names of the capabilities a tier grants, in declaration order.
pub open spec fn granted_names(tier: TrustTier) -> Seq<Seq<char>> {
    granted_seq(tier).map_values(|c| capability_name_spec(c))
}

/// The names of the capabilities a tier grants, in declaration order.
pub(crate) fn granted_name_list(trust_tier: TrustTier) -> (r: Vec<String>)
    ensures
        r@.map_values(|s: String| s@) == granted_names(trust_tier),
{
    let caps = trust_tier.granted_capabilities();
    let mut names: Vec<String> = Vec::new();
    let mut i: usize = 0;
    while i < caps.len()
        invariant
            i <= caps@.len(),
            caps@ == granted_seq(trust_tier),
            names@.len() == i,
            forall|j: int| 0 <= j < i ==> (#[trigger] names@[j])@ == capability_name_spec(caps@[j]),
        decreases caps@.len() - i,
    {
        names.push(String::from_str(capability_name(caps[i])));
        i = i + 1;
    }
    assert(names@.map_values(|s: String| s@) =~= granted_names(trust_tier));
    names
}

/// The context of a macro of tier `trust_tier`.
pub fn create_macro_ffi_context(trust_tier: TrustTier) -> (r: MacroFfiContext)
    ensures
        r.trust_tier == trust_tier,
        r.allowed_ffi@.map_values(|s: String| s@) == granted_names(trust_tier),
{
    MacroFfiContext { trust_tier, allowed_ffi: granted_name_list(trust_tier) }
}

/// May a macro in `context` call `ffi_name`: only a name of the allowed
/// list; otherwise a foreign-call error names the function and the tier.
pub fn check_macro_ffi_permission(ffi_name: &str, context: &MacroFfiContext) -> (r: Result<
    (),
    CompilationError,
>)
    ensures
        context.allowed_ffi@.map_values(|s: String| s@).contains(ffi_name@) ==> r is Ok,
        !context.allowed_ffi@.map_values(|s: String| s@).contains(ffi_name@) ==> (r matches Err(
            CompilationError::FfiError(m),
        ) && m@ == "FFI "@ + ffi_name@ + " not allowed in macro context for trust tier "@
            + tier_name_spec(context.trust_tier)),
{
    let ghost names = context.allowed_ffi@.map_values(|s: String| s@);
    let mut i: usize = 0;
    while i < context.allowed_ffi.len()
        invariant
            i <= context.allowed_ffi@.len(),
            names == context.allowed_ffi@.map_values(|s: String| s@),
            forall|j: int| 0 <= j < i ==> names[j] != ffi_name@,
        decreases context.allowed_ffi@.len() - i,
    {
        if str_eq(context.allowed_ffi[i].as_str(), ffi_name) {
            assert(names[i as int] == ffi_name@);
            return Ok(());
        }
        i = i + 1;
    }
    let mut m = String::from_str("FFI ");
    m.append(ffi_name);
    m.append(" not allowed in macro context for trust tier ");
    m.append(context.trust_tier.name());
    Err(CompilationError::FfiError(m))
}

/// A foreign call made by a macro: once permitted, it stands for nil.
pub fn process_macro_ffi_call(ffi_name: &str, arguments: Vec<AstNode>, context: &MacroFfiContext) -> (r:
    Result<AstNode, CompilationError>)
    ensures
        context.allowed_ffi@.map_values(|s: String| s@).contains(ffi_name@) ==> r matches Ok(
            AstNode::Literal(Literal::Nil),
        ),
        !context.allowed_ffi@.map_values(|s: String| s@).contains(ffi_name@) ==> (r matches Err(
            CompilationError::FfiError(m),
        ) && m@ == "FFI "@ + ffi_name@ + " not allowed in macro context for trust tier "@
            + tier_name_spec(context.trust_tier)),
{
    match check_macro_ffi_permission(ffi_name, context) {
        Ok(()) => Ok(AstNode::Literal(Literal::Nil)),
        Err(e) => Err(e),
    }
}

} // verus!
