//! Mediation of capability requests made through foreign calls: a request
//! is granted when the trust tier grants the capability.
use vstd::prelude::*;
use crate::error::{CapabilityViolation, CompilationError, SourceLocation, unknown_location};
use crate::physics::{Capability, capability_name, capability_name_spec};
use crate::trust_tier::{TrustTier, granted_seq, tier_name_spec};

verus! {

/// The capabilities a mediator lets through.
pub struct CapabilityMediatorConfig {
    /// The trust tier.
    pub trust_tier: TrustTier,
    /// The capabilities allowed.
    pub allowed_capabilities: Vec<Capability>,
}

/// The answer to a capability check.
#[derive(Debug, PartialEq)]
pub enum CapabilityCheckResult {
    /// The capability is allowed.
    Allowed,
    /// It is not, and why.
    Denied(String),
}

/// The configuration for tier `trust_tier`: the capabilities it grants, in
/// declaration order.
pub fn create_capability_mediator_config(trust_tier: TrustTier) -> (r: CapabilityMediatorConfig)
    ensures
        r.trust_tier == trust_tier,
        r.allowed_capabilities@ == granted_seq(trust_tier),
{
    CapabilityMediatorConfig { trust_tier, allowed_capabilities: trust_tier.granted_capabilities() }
}

/// The message of a denied capability.
pub open spec fn denial_message(c: Capability, tier: TrustTier) -> Seq<char> {
    "Capability "@ + capability_name_spec(c) + " not allowed for trust tier "@ + tier_name_spec(tier)
}

/// Is `capability` among the allowed ones.
pub fn check_capability(capability: &Capability, config: &CapabilityMediatorConfig) -> (r:
    CapabilityCheckResult)
    ensures
        config.allowed_capabilities@.contains(*capability) ==> r is Allowed,
        !config.allowed_capabilities@.contains(*capability) ==> (r matches CapabilityCheckResult::Denied(m)
            && m@ == denial_message(*capability, config.trust_tier)),
{
    let mut i: usize = 0;
    while i < config.allowed_capabilities.len()
        invariant
            i <= config.allowed_capabilities@.len(),
            forall|j: int| 0 <= j < i ==> config.allowed_capabilities@[j] != *capability,
        decreases config.allowed_capabilities@.len() - i,
    {
        if config.allowed_capabilities[i] == *capability {
            assert(config.allowed_capabilities@[i as int] == *capability);
            return CapabilityCheckResult::Allowed;
        }
        i = i + 1;
    }
    let mut m = String::from_str("Capability ");
    m.append(capability_name(*capability));
    m.append(" not allowed for trust tier ");
    m.append(config.trust_tier.name());
    CapabilityCheckResult::Denied(m)
}

/// Grants an allowed capability; refuses any other with a capability
/// violation at the unknown location whose suggestion is the denial.
pub fn mediate_capability_request(capability: Capability, config: &CapabilityMediatorConfig) -> (r:
    Result<(), CompilationError>)
    ensures
        config.allowed_capabilities@.contains(capability) ==> r is Ok,
        !config.allowed_capabilities@.contains(capability) ==> (r matches Err(
            CompilationError::CapabilityError(v),
        ) && v.required == capability && v.tier == config.trust_tier && v.location
            == unknown_location() && v.suggestion@ == denial_message(capability, config.trust_tier)),
{
    match check_capability(&capability, config) {
        CapabilityCheckResult::Allowed => Ok(()),
        CapabilityCheckResult::Denied(message) => Err(
            CompilationError::CapabilityError(
                CapabilityViolation {
                    required: capability,
                    tier: config.trust_tier,
                    location: SourceLocation::default(),
                    suggestion: message,
                },
            ),
        ),
    }
}

} // verus!
