//! Trust tiers and the capabilities each of them grants.
use vstd::prelude::*;
use crate::physics::Capability;

verus! {

/// How far a piece of code is trusted, from the most trusted (`Formal`) to
/// the least (`Experimental`).
#[derive(Debug, Clone, Copy, PartialEq, Eq, Hash, Structural)]
pub enum TrustTier {
    /// Proved correct against the kernel.
    Formal,
    /// Checked by proofs and review.
    Verified,
    /// Validated by tests; runs with runtime capability checks.
    Empirical,
    /// Untested; runs in a sandbox.
    Experimental,
}

/// The rank of a tier: the more trusted, the higher.
pub open spec fn tier_rank(t: TrustTier) -> int {
    match t {
        TrustTier::Formal => 3,
        TrustTier::Verified => 2,
        TrustTier::Empirical => 1,
        TrustTier::Experimental => 0,
    }
}

/// Does tier `t` grant capability `c`.
///
/// Formal code may expand hygienic macros and evaluate at compile time;
/// verified code may also grant; empirical code may also do I/O; experimental
/// code may do anything.
pub open spec fn tier_grants(t: TrustTier, c: Capability) -> bool {
    match t {
        TrustTier::Formal => c == Capability::MacroHygienic || c == Capability::ComptimeEval,
        TrustTier::Verified => c == Capability::MacroHygienic || c == Capability::ComptimeEval
            || c == Capability::MetaGrant,
        TrustTier::Empirical => c == Capability::MacroHygienic || c == Capability::ComptimeEval
            || c == Capability::MetaGrant || c == Capability::IoReadSensor
            || c == Capability::IoWriteActuator || c == Capability::IoNetwork
            || c == Capability::IoPersist,
        TrustTier::Experimental => true,
    }
}

/// All capabilities, in declaration order.
pub open spec fn all_capabilities() -> Seq<Capability> {
    seq![
        Capability::MetaSelfModify,
        Capability::MetaGrant,
        Capability::MacroHygienic,
        Capability::MacroUnsafe,
        Capability::ComptimeEval,
        Capability::IoReadSensor,
        Capability::IoWriteActuator,
        Capability::IoNetwork,
        Capability::IoPersist,
        Capability::SysCreateActor,
        Capability::SysTerminateActor,
        Capability::SysClock,
    ]
}

/// The capabilities that tier `t` grants, in declaration order.
pub open spec fn granted_seq(t: TrustTier) -> Seq<Capability> {
    all_capabilities().filter(|c: Capability| tier_grants(t, c))
}

/// Every capability occurs in `all_capabilities`.
pub proof fn lemma_all_capabilities(c: Capability)
    ensures
        all_capabilities().contains(c),
{
    let s = all_capabilities();
    let i: int = match c {
        Capability::MetaSelfModify => 0,
        Capability::MetaGrant => 1,
        Capability::MacroHygienic => 2,
        Capability::MacroUnsafe => 3,
        Capability::ComptimeEval => 4,
        Capability::IoReadSensor => 5,
        Capability::IoWriteActuator => 6,
        Capability::IoNetwork => 7,
        Capability::IoPersist => 8,
        Capability::SysCreateActor => 9,
        Capability::SysTerminateActor => 10,
        Capability::SysClock => 11,
    };
    assert(s[i] == c);
}

/// The variant name of a tier, as `{:?}` writes it.
pub open spec fn tier_name_spec(t: TrustTier) -> Seq<char> {
    match t {
        TrustTier::Formal => "Formal"@,
        TrustTier::Verified => "Verified"@,
        TrustTier::Empirical => "Empirical"@,
        TrustTier::Experimental => "Experimental"@,
    }
}

impl TrustTier {
    /// The variant name of this tier.
    pub fn name(&self) -> (r: &'static str)
        ensures
            r@ == tier_name_spec(*self),
    {
        match self {
            TrustTier::Formal => "Formal",
            TrustTier::Verified => "Verified",
            TrustTier::Empirical => "Empirical",
            TrustTier::Experimental => "Experimental",
        }
    }

    /// Does this tier grant `capability`.
    pub fn allows_capability(&self, capability: &Capability) -> (r: bool)
        ensures
            r == tier_grants(*self, *capability),
    {
        let c = *capability;
        match self {
            TrustTier::Formal => c == Capability::MacroHygienic || c == Capability::ComptimeEval,
            TrustTier::Verified => c == Capability::MacroHygienic || c == Capability::ComptimeEval
                || c == Capability::MetaGrant,
            TrustTier::Empirical => c == Capability::MacroHygienic || c == Capability::ComptimeEval
                || c == Capability::MetaGrant || c == Capability::IoReadSensor
                || c == Capability::IoWriteActuator || c == Capability::IoNetwork
                || c == Capability::IoPersist,
            TrustTier::Experimental => true,
        }
    }

    /// The capabilities this tier grants, in declaration order.
    pub fn granted_capabilities(&self) -> (r: Vec<Capability>)
        ensures
            r@ == granted_seq(*self),
            forall|c: Capability| r@.contains(c) <==> tier_grants(*self, c),
    {
        let all: Vec<Capability> = vec![
            Capability::MetaSelfModify,
            Capability::MetaGrant,
            Capability::MacroHygienic,
            Capability::MacroUnsafe,
            Capability::ComptimeEval,
            Capability::IoReadSensor,
            Capability::IoWriteActuator,
            Capability::IoNetwork,
            Capability::IoPersist,
            Capability::SysCreateActor,
            Capability::SysTerminateActor,
            Capability::SysClock,
        ];
        assert(all@ =~= all_capabilities());
        let mut r: Vec<Capability> = Vec::new();
        let mut i: usize = 0;
        let ghost pred = |c: Capability| tier_grants(*self, c);
        while i < all.len()
            invariant
                all@ == all_capabilities(),
                i <= all.len(),
                r@ == all@.take(i as int).filter(pred),
                pred == (|c: Capability| tier_grants(*self, c)),
            decreases all.len() - i,
        {
            let c = all[i];
            proof {
                reveal(Seq::filter);
            }
            assert(all@.take(i as int + 1).drop_last() =~= all@.take(i as int));
            if self.allows_capability(&c) {
                r.push(c);
            }
            i = i + 1;
        }
        assert(all@.take(all.len() as int) =~= all@);
        proof {
            let s = all_capabilities();
            assert forall|c: Capability| r@.contains(c) <==> tier_grants(*self, c) by {
                lemma_all_capabilities(c);
                if tier_grants(*self, c) {
                    let k = choose|k: int| 0 <= k < s.len() && s[k] == c;
                    s.lemma_filter_contains(pred, k);
                }
                if r@.contains(c) {
                    let k = choose|k: int| 0 <= k < r@.len() && r@[k] == c;
                    s.lemma_filter_pred(pred, k);
                }
            }
        }
        r
    }

    /// Is this tier at least as trusted as `other`.
    pub fn is_at_least(&self, other: &TrustTier) -> (r: bool)
        ensures
            r == (tier_rank(*self) >= tier_rank(*other)),
    {
        let a: u8 = match self {
            TrustTier::Formal => 3,
            TrustTier::Verified => 2,
            TrustTier::Empirical => 1,
            TrustTier::Experimental => 0,
        };
        let b: u8 = match other {
            TrustTier::Formal => 3,
            TrustTier::Verified => 2,
            TrustTier::Empirical => 1,
            TrustTier::Experimental => 0,
        };
        a >= b
    }
}

/// A more trusted tier grants no capability that a less trusted one lacks:
/// if `a` is at least as trusted as `b`, everything `a` grants `b` grants too.
pub proof fn lemma_trust_is_monotone(a: TrustTier, b: TrustTier, c: Capability)
    requires
        tier_rank(a) >= tier_rank(b),
        tier_grants(a, c),
    ensures
        tier_grants(b, c),
{
}

} // verus!
