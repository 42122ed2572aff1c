//! Properties that relate several operations of the library.
use vstd::prelude::*;
use crate::ast_view::NodeView;
use crate::capability_analyzer::ffi_capability_spec;
use crate::capability_ffi::{call_validation, lookup};
use crate::environment::{CompilationEnvironment, lemma_push_pop_restores};
use crate::macro_expander::{MacroDefinition as DefinedMacro, expand_once, substitute_through,
    substitute_through_all};
use crate::macro_system::{ExpansionState, Expanded, MacroEnv, expand_all_seq, expand_all_spec,
    substitute, substitute_all};
use crate::physics::{Capability, capability_from_name_spec, capability_name_spec};
use crate::structured_error::{ErrorSeverity, StructuredError, severity_rank};
use crate::trust_tier::{TrustTier, all_capabilities, granted_seq, lemma_all_capabilities, tier_grants,
    tier_rank};

verus! {

/// Reading back the name of a capability gives the capability.
pub proof fn lemma_capability_name_round_trip(c: Capability)
    ensures
        capability_from_name_spec(capability_name_spec(c)) == Some(c),
{
    reveal_strlit("MetaSelfModify");
    reveal_strlit("MetaGrant");
    reveal_strlit("MacroHygienic");
    reveal_strlit("MacroUnsafe");
    reveal_strlit("ComptimeEval");
    reveal_strlit("IoReadSensor");
    reveal_strlit("IoWriteActuator");
    reveal_strlit("IoNetwork");
    reveal_strlit("IoPersist");
    reveal_strlit("SysCreateActor");
    reveal_strlit("SysTerminateActor");
    reveal_strlit("SysClock");
    let s = capability_name_spec(c);
    if c == Capability::MetaSelfModify {
    }
    if c == Capability::MetaGrant {
        assert(s.len() != "MetaSelfModify"@.len());
    }
    if c == Capability::MacroHygienic {
        assert(s.len() != "MetaSelfModify"@.len());
        assert(s.len() != "MetaGrant"@.len());
    }
    if c == Capability::MacroUnsafe {
        assert(s.len() != "MetaSelfModify"@.len());
        assert(s.len() != "MetaGrant"@.len());
        assert(s.len() != "MacroHygienic"@.len());
    }
    if c == Capability::ComptimeEval {
        assert(s.len() != "MetaSelfModify"@.len());
        assert(s.len() != "MetaGrant"@.len());
        assert(s.len() != "MacroHygienic"@.len());
        assert(s.len() != "MacroUnsafe"@.len());
    }
    if c == Capability::IoReadSensor {
        assert(s.len() != "MetaSelfModify"@.len());
        assert(s.len() != "MetaGrant"@.len());
        assert(s.len() != "MacroHygienic"@.len());
        assert(s.len() != "MacroUnsafe"@.len());
        assert(s[0] != "ComptimeEval"@[0]);
    }
    if c == Capability::IoWriteActuator {
        assert(s.len() != "MetaSelfModify"@.len());
        assert(s.len() != "MetaGrant"@.len());
        assert(s.len() != "MacroHygienic"@.len());
        assert(s.len() != "MacroUnsafe"@.len());
        assert(s.len() != "ComptimeEval"@.len());
        assert(s.len() != "IoReadSensor"@.len());
    }
    if c == Capability::IoNetwork {
        assert(s.len() != "MetaSelfModify"@.len());
        assert(s[0] != "MetaGrant"@[0]);
        assert(s.len() != "MacroHygienic"@.len());
        assert(s.len() != "MacroUnsafe"@.len());
        assert(s.len() != "ComptimeEval"@.len());
        assert(s.len() != "IoReadSensor"@.len());
        assert(s.len() != "IoWriteActuator"@.len());
    }
    if c == Capability::IoPersist {
        assert(s.len() != "MetaSelfModify"@.len());
        assert(s[0] != "MetaGrant"@[0]);
        assert(s.len() != "MacroHygienic"@.len());
        assert(s.len() != "MacroUnsafe"@.len());
        assert(s.len() != "ComptimeEval"@.len());
        assert(s.len() != "IoReadSensor"@.len());
        assert(s.len() != "IoWriteActuator"@.len());
        assert(s[2] != "IoNetwork"@[2]);
    }
    if c == Capability::SysCreateActor {
        assert(s[0] != "MetaSelfModify"@[0]);
        assert(s.len() != "MetaGrant"@.len());
        assert(s.len() != "MacroHygienic"@.len());
        assert(s.len() != "MacroUnsafe"@.len());
        assert(s.len() != "ComptimeEval"@.len());
        assert(s.len() != "IoReadSensor"@.len());
        assert(s.len() != "IoWriteActuator"@.len());
        assert(s.len() != "IoNetwork"@.len());
        assert(s.len() != "IoPersist"@.len());
    }
    if c == Capability::SysTerminateActor {
        assert(s.len() != "MetaSelfModify"@.len());
        assert(s.len() != "MetaGrant"@.len());
        assert(s.len() != "MacroHygienic"@.len());
        assert(s.len() != "MacroUnsafe"@.len());
        assert(s.len() != "ComptimeEval"@.len());
        assert(s.len() != "IoReadSensor"@.len());
        assert(s.len() != "IoWriteActuator"@.len());
        assert(s.len() != "IoNetwork"@.len());
        assert(s.len() != "IoPersist"@.len());
        assert(s.len() != "SysCreateActor"@.len());
    }
    if c == Capability::SysClock {
        assert(s.len() != "MetaSelfModify"@.len());
        assert(s.len() != "MetaGrant"@.len());
        assert(s.len() != "MacroHygienic"@.len());
        assert(s.len() != "MacroUnsafe"@.len());
        assert(s.len() != "ComptimeEval"@.len());
        assert(s.len() != "IoReadSensor"@.len());
        assert(s.len() != "IoWriteActuator"@.len());
        assert(s.len() != "IoNetwork"@.len());
        assert(s.len() != "IoPersist"@.len());
        assert(s.len() != "SysCreateActor"@.len());
        assert(s.len() != "SysTerminateActor"@.len());
    }
}

/// The capabilities listed for a tier (by a mediator, a macro context or a
/// sandbox) are exactly those the tier grants.
pub proof fn lemma_listed_iff_granted(t: TrustTier, c: Capability)
    ensures
        granted_seq(t).contains(c) <==> tier_grants(t, c),
{
    let s = all_capabilities();
    let pred = |x: Capability| tier_grants(t, x);
    lemma_all_capabilities(c);
    if tier_grants(t, c) {
        let k = choose|k: int| 0 <= k < s.len() && s[k] == c;
        s.lemma_filter_contains(pred, k);
    }
    if granted_seq(t).contains(c) {
        let k = choose|k: int| 0 <= k < granted_seq(t).len() && granted_seq(t)[k] == c;
        s.lemma_filter_pred(pred, k);
    }
}

/// Every tier is at least as trusted as itself, and "at least as trusted"
/// chains.
pub proof fn lemma_tier_order(a: TrustTier, b: TrustTier, c: TrustTier)
    ensures
        tier_rank(a) >= tier_rank(a),
        tier_rank(a) >= tier_rank(b) && tier_rank(b) >= tier_rank(c) ==> tier_rank(a) >= tier_rank(c),
{
}

/// A critical error is an error: a handler with a critical error has
/// errors.
pub proof fn lemma_critical_is_error(errors: Seq<StructuredError>)
    ensures
        (exists|i: int| 0 <= i < errors.len() && #[trigger] errors[i].severity == ErrorSeverity::Critical)
            ==> (exists|i: int|
            0 <= i < errors.len() && severity_rank(#[trigger] errors[i].severity) >= severity_rank(
                ErrorSeverity::Error,
            )),
{
    if exists|i: int| 0 <= i < errors.len() && #[trigger] errors[i].severity == ErrorSeverity::Critical {
        let i = choose|i: int| 0 <= i < errors.len() && #[trigger] errors[i].severity == ErrorSeverity::Critical;
        assert(severity_rank(errors[i].severity) >= severity_rank(ErrorSeverity::Error));
    }
}

/// The capability-mediated validator and the capability analyzer's
/// foreign-call check accept the same calls: a standard function whose
/// capability the tier grants.
pub proof fn lemma_validators_agree(table: Seq<(String, Capability)>, t: TrustTier, name: Seq<char>)
    requires
        forall|n: Seq<char>| lookup(table, n) == ffi_capability_spec(n),
    ensures
        call_validation(table, t, name) is None <==> (ffi_capability_spec(name) matches Some(c)
            && tier_grants(t, c)),
{
    assert(lookup(table, name) == ffi_capability_spec(name));
}

/// A use of a name expands the latest definition of that name: defining a
/// macro and then expanding it uses the macro just defined.
pub proof fn lemma_define_then_expand(
    macros: Map<Seq<char>, DefinedMacro>,
    name: Seq<char>,
    d: DefinedMacro,
    args: Seq<NodeView>,
)
    ensures
        expand_once(macros.insert(name, d), name, args) == expand_once(
            Map::<Seq<char>, DefinedMacro>::empty().insert(name, d),
            name,
            args,
        ),
{
}

/// Substituting nothing changes nothing.
pub proof fn lemma_substitute_nothing(v: NodeView)
    ensures
        substitute(v, seq![]) == v,
    decreases v,
{
    if let NodeView::Call { function, arguments, location } = v {
        lemma_substitute_nothing(*function);
        lemma_substitute_all_nothing(arguments);
    }
}

/// Substituting nothing in a list changes nothing.
pub proof fn lemma_substitute_all_nothing(s: Seq<NodeView>)
    ensures
        substitute_all(s, seq![]) == s,
    decreases s,
{
    if s.len() > 0 {
        lemma_substitute_all_nothing(s.subrange(0, s.len() - 1));
        lemma_substitute_nothing(s[s.len() - 1]);
        assert(s.subrange(0, s.len() - 1).push(s[s.len() - 1]) =~= s);
    }
}

/// Substituting nothing changes nothing, for the simpler macro facility
/// too.
pub proof fn lemma_substitute_through_nothing(v: NodeView)
    ensures
        substitute_through(v, seq![]) == v,
    decreases v,
{
    match v {
        NodeView::Call { function, arguments, location } => {
            lemma_substitute_through_nothing(*function);
            lemma_substitute_through_all_nothing(arguments);
        },
        NodeView::Lambda { parameters, body, location } => {
            lemma_substitute_through_nothing(*body);
        },
        _ => {},
    }
}

/// Substituting nothing in a list changes nothing.
pub proof fn lemma_substitute_through_all_nothing(s: Seq<NodeView>)
    ensures
        substitute_through_all(s, seq![]) == s,
    decreases s,
{
    if s.len() > 0 {
        lemma_substitute_through_all_nothing(s.subrange(0, s.len() - 1));
        lemma_substitute_through_nothing(s[s.len() - 1]);
        assert(s.subrange(0, s.len() - 1).push(s[s.len() - 1]) =~= s);
    }
}

/// Does a tree use no macro where expansion looks (itself, and the
/// functions and arguments of calls).
pub open spec fn macro_free(v: NodeView) -> bool
    decreases v,
{
    match v {
        NodeView::MacroExpansion { .. } => false,
        NodeView::Call { function, arguments, .. } => macro_free(*function) && all_macro_free(
            arguments,
        ),
        _ => true,
    }
}

/// Is every tree of `s` macro free.
pub open spec fn all_macro_free(s: Seq<NodeView>) -> bool
    decreases s,
{
    if s.len() == 0 {
        true
    } else {
        all_macro_free(s.subrange(0, s.len() - 1)) && macro_free(s[s.len() - 1])
    }
}

/// Expanding a tree that uses no macro gives it back and leaves the
/// context as it was.
pub proof fn lemma_expand_macro_free(env: MacroEnv, st: ExpansionState, v: NodeView)
    requires
        macro_free(v),
    ensures
        expand_all_spec(env, st, v) == (st, Expanded::Done(v)),
    decreases v,
{
    if let NodeView::Call { function, arguments, location } = v {
        lemma_expand_macro_free(env, st, *function);
        lemma_expand_seq_macro_free(env, st, arguments);
    }
}

/// Expanding trees that use no macro gives them back.
pub proof fn lemma_expand_seq_macro_free(env: MacroEnv, st: ExpansionState, s: Seq<NodeView>)
    requires
        all_macro_free(s),
    ensures
        expand_all_seq(env, st, s) == (st, Ok::<Seq<NodeView>, crate::macro_system::MacroFailure>(s)),
    decreases s,
{
    if s.len() > 0 {
        let prefix = s.subrange(0, s.len() - 1);
        lemma_expand_seq_macro_free(env, st, prefix);
        lemma_expand_macro_free(env, st, s[s.len() - 1]);
        assert(prefix.push(s[s.len() - 1]) =~= s);
        assert(expand_all_seq(env, st, prefix).1 == Ok::<Seq<NodeView>, crate::macro_system::MacroFailure>(prefix));
        assert(expand_all_spec(env, st, s[s.len() - 1]).1 == Expanded::Done(s[s.len() - 1]));
    } else {
        assert(s =~= seq![]);
    }
}

/// Entering a scope, defining a name in it and leaving it again drops that
/// binding: the variables in force, the enclosing scopes, the frame size and
/// the saved frame sizes are those from before. The premises are what
/// `push_scope`, `define_variable` and `pop_scope` state of their results.
pub proof fn lemma_scope_drops_its_definitions(
    before: CompilationEnvironment,
    pushed: CompilationEnvironment,
    defined: CompilationEnvironment,
    after: CompilationEnvironment,
    name: Seq<char>,
)
    requires
        pushed.variables() == before.variables(),
        pushed.outer_variables() == before.outer_variables().push(before.variables()),
        pushed.frame_size == before.frame_size,
        pushed.saved_frame_sizes@ == before.saved_frame_sizes@.push(before.frame_size),
        defined.frame_size == pushed.frame_size + 1,
        defined.saved_frame_sizes == pushed.saved_frame_sizes,
        defined.variables() == pushed.variables().insert(name, pushed.frame_size),
        defined.outer_variables() == pushed.outer_variables(),
        defined.outer_variables().len() > 0 ==> after.variables() == defined.outer_variables().last()
            && after.outer_variables() == defined.outer_variables().drop_last(),
        defined.saved_frame_sizes@.len() > 0 ==> after.frame_size == defined.saved_frame_sizes@.last()
            && after.saved_frame_sizes@ == defined.saved_frame_sizes@.drop_last(),
    ensures
        after.variables() == before.variables(),
        after.variables().get(name) == before.variables().get(name),
        after.outer_variables() == before.outer_variables(),
        after.frame_size == before.frame_size,
        after.saved_frame_sizes@ == before.saved_frame_sizes@,
{
    lemma_push_pop_restores(before, pushed, defined, after);
}

} // verus!
