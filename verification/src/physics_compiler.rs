//! The compiler from syntax trees to the stack machine's bytecode.
//!
//! What each tree compiles to is stated by the spec function `cexpr`, which
//! threads the compiler's state (the string pool, the capability table and
//! the variables' offsets) through the tree; the compiler's contracts hold
//! it to `cexpr`.
use vstd::prelude::*;
use crate::ast::{AstNode, Literal, debug_node};
use crate::environment::CompilationEnvironment;
use crate::error::{CompilationError, SourceLocation, default_location, unknown_location};
use crate::ffi_call_generator::FfiCallGenerator;
use crate::global_ffi_registry::{FfiFunction, FfiRegistry, has_name, name_position, has_capability_index};
use crate::physics::{Capability, OpCode, Value, capability_from_name_spec, string_to_capability, host_function_id, host_function_number};
use crate::standard_functions::{create_standard_ffi_registry, string_views, FfiFunctionView, function_views, ffi_function_view};
use crate::trust_tier::TrustTier;
use crate::text::{str_eq, to_owned_string};

verus! {

/// The state that compiling threads through a tree.
#[verifier::ext_equal]
pub struct CState {
    /// The string constants, by index.
    pub pool: Seq<Seq<char>>,
    /// The capabilities, by index.
    pub caps: Seq<Capability>,
    /// The offset of each variable.
    pub vars: Map<Seq<char>, usize>,
    /// The variables in force in each enclosing scope, outermost first.
    pub outer: Seq<Map<Seq<char>, usize>>,
    /// The current frame size.
    pub frame: usize,
    /// The saved frame sizes.
    pub saved: Seq<usize>,
}

/// What compiling depends on besides its state: the foreign functions and
/// whether calls in tail position become tail calls.
pub struct CCtx {
    /// The registered foreign functions.
    pub functions: Seq<FfiFunctionView>,
    /// The registry's capability table.
    pub capability_indices: Seq<(Option<Capability>, usize)>,
    /// Whether tail calls are emitted.
    pub tail_calls: bool,
}

/// Why compiling fails.
pub enum CErr {
    /// This variable is not bound.
    VariableNotFound(Seq<char>),
    /// This capability name is unknown.
    UnknownCapability(Seq<char>),
    /// This foreign function is not registered.
    FfiFunctionNotFound(Seq<char>),
    /// This kind of node cannot be compiled.
    Unsupported,
}

/// The outcome of compiling: the bytecode or the reason it failed, and the
/// state after.
pub type COut = (Result<Seq<OpCode>, CErr>, CState);

/// The first position of `x` in `s` at or after `i`, or -1.
pub open spec fn find_from<T>(s: Seq<T>, x: T, i: int) -> int
    decreases s.len() - i,
{
    if i < 0 || i >= s.len() {
        -1
    } else if s[i] == x {
        i
    } else {
        find_from(s, x, i + 1)
    }
}

/// The index of `x` in the table `s`, and the table: `x`'s first position
/// where it occurs, and otherwise a new last entry.
pub open spec fn intern<T>(s: Seq<T>, x: T) -> (int, Seq<T>) {
    let p = find_from(s, x, 0);
    if p >= 0 {
        (p, s)
    } else {
        (s.len() as int, s.push(x))
    }
}

/// The state with string `x` interned, and its index.
pub open spec fn intern_string(st: CState, x: Seq<char>) -> (int, CState) {
    let (i, pool) = intern(st.pool, x);
    (i, CState { pool, ..st })
}

/// The state with capability `c` interned, and its index.
pub open spec fn intern_capability(st: CState, c: Capability) -> (int, CState) {
    let (i, caps) = intern(st.caps, c);
    (i, CState { caps, ..st })
}

/// The state on entering a scope: a new, empty scope inside the current
/// one, and the frame size saved.
pub open spec fn enter_scope(st: CState) -> CState {
    CState { outer: st.outer.push(st.vars), saved: st.saved.push(st.frame), ..st }
}

/// The state on leaving a scope: the variables of the enclosing scope back
/// in force, and the saved frame size restored.
pub open spec fn leave_scope(st: CState) -> CState {
    let scoped = if st.outer.len() > 0 {
        CState { vars: st.outer.last(), outer: st.outer.drop_last(), ..st }
    } else {
        st
    };
    if st.saved.len() > 0 {
        CState { frame: st.saved.last(), saved: st.saved.drop_last(), ..scoped }
    } else {
        scoped
    }
}

/// The state with `name` bound to `offset`.
pub open spec fn bind(st: CState, name: Seq<char>, offset: usize) -> CState {
    CState { vars: st.vars.insert(name, offset), ..st }
}

/// The state with the first `k` parameters of `ps` bound to their
/// positions.
pub open spec fn bind_params(st: CState, ps: Seq<String>, k: int) -> CState
    decreases k,
{
    if k <= 0 || k > ps.len() {
        st
    } else {
        bind(bind_params(st, ps, k - 1), ps[k - 1]@, (k - 1) as usize)
    }
}

/// The state with the names of the first `k` bindings of `bs` bound to 0.
pub open spec fn bind_names(st: CState, bs: Seq<(String, AstNode)>, k: int) -> CState
    decreases k,
{
    if k <= 0 || k > bs.len() {
        st
    } else {
        bind(bind_names(st, bs, k - 1), bs[k - 1].0@, 0)
    }
}

/// Does a function named `name` occur in `fs`.
pub open spec fn fview_has(fs: Seq<FfiFunctionView>, name: Seq<char>) -> bool {
    exists|j: int| 0 <= j < fs.len() && fs[j].name == name
}

/// The position of the function named `name` in `fs` (where names are
/// distinct, the only one).
pub open spec fn fview_pos(fs: Seq<FfiFunctionView>, name: Seq<char>) -> int {
    choose|j: int| 0 <= j < fs.len() && fs[j].name == name
}

/// Looking a name up among functions and among their views agrees, where
/// names are distinct.
pub proof fn lemma_view_lookup(fs: Seq<FfiFunction>, name: Seq<char>)
    requires
        forall|i: int, j: int| 0 <= i < j < fs.len() ==> fs[i].name@ != fs[j].name@,
    ensures
        fview_has(function_views(fs), name) == has_name(fs, name),
        has_name(fs, name) ==> fview_pos(function_views(fs), name) == name_position(fs, name)
            && function_views(fs)[name_position(fs, name)] == ffi_function_view(fs[name_position(fs, name)]),
{
    let vs = function_views(fs);
    if has_name(fs, name) {
        let p = name_position(fs, name);
        assert(vs[p].name == name);
        let q = fview_pos(vs, name);
        assert(vs[q].name == name);
        assert(fs[q].name@ == name);
    }
    if fview_has(vs, name) {
        let q = fview_pos(vs, name);
        assert(fs[q].name@ == name);
    }
}

/// The index that a host call uses for the capability that a foreign
/// function needs: the registry's index for it, or 0 where it needs none or
/// has no index.
pub open spec fn ffi_capability_slot(cx: CCtx, c: Option<Capability>) -> usize {
    match c {
        Some(x) => if has_capability_index(cx.capability_indices, Some(x)) {
            cx.capability_indices[choose|k: int|
                0 <= k < cx.capability_indices.len() && cx.capability_indices[k].0 == Some(x)].1
        } else {
            0
        },
        None => 0,
    }
}

/// The instruction that ends a call of `n` arguments.
pub open spec fn call_op(cx: CCtx, tail: bool, n: int) -> OpCode {
    if tail && cx.tail_calls {
        OpCode::TailCall(n as u16)
    } else {
        OpCode::Call(n as u16)
    }
}

/// The bytecode of a conditional from the bytecode of its parts: the
/// condition, a jump to the else branch when it is false, the then branch,
/// a jump over the else branch, and the else branch. Jump offsets are
/// relative to the instruction after the jump, taken modulo 2^16.
pub open spec fn if_code(c: Seq<OpCode>, t: Seq<OpCode>, e: Seq<OpCode>) -> Seq<OpCode> {
    c + seq![OpCode::JmpIfFalse((t.len() + 1) as i16)] + t + seq![OpCode::Jmp(e.len() as i16)] + e
}

/// What a variable reference compiles to: a load of its slot (taken modulo
/// 2^16).
pub open spec fn cvariable(st: CState, name: Seq<char>) -> COut {
    match st.vars.get(name) {
        Some(i) => (Ok(seq![OpCode::GetLocal(i as u16)]), st),
        None => (Err(CErr::VariableNotFound(name)), st),
    }
}

/// What a symbol compiles to: a push of its interned name.
pub open spec fn csymbol(st: CState, name: Seq<char>) -> COut {
    let (i, st1) = intern_string(st, name);
    (Ok(seq![OpCode::Symbol(i as usize)]), st1)
}

/// What `(require-capability name)` compiles to: a request of the
/// capability's interned index.
pub open spec fn crequire(st: CState, name: Seq<char>) -> COut {
    match capability_from_name_spec(name) {
        None => (Err(CErr::UnknownCapability(name)), st),
        Some(c) => {
            let (i, st1) = intern_capability(st, c);
            (Ok(seq![OpCode::RequestCap(i as usize, 0)]), st1)
        },
    }
}

/// What `(has-capability? name)` compiles to: a test of the capability's
/// interned index.
pub open spec fn chas(st: CState, name: Seq<char>) -> COut {
    match capability_from_name_spec(name) {
        None => (Err(CErr::UnknownCapability(name)), st),
        Some(c) => {
            let (i, st1) = intern_capability(st, c);
            (Ok(seq![OpCode::HasCap(i as usize)]), st1)
        },
    }
}

/// What the expression `ast` compiles to from state `st`, in tail position
/// if `tail`.
pub open spec fn cexpr(cx: CCtx, st: CState, ast: AstNode, tail: bool) -> COut
    decreases ast, 0int,
{
    match ast {
        AstNode::Literal(lit) => match lit {
            Literal::Int(v) => (Ok(seq![OpCode::Int(v)]), st),
            Literal::Float(t) => (Ok(seq![OpCode::Float(t)]), st),
            Literal::String(s) => {
                let (i, st1) = intern_string(st, s@);
                (Ok(seq![OpCode::LoadString(i as usize)]), st1)
            },
            Literal::Bool(b) => (Ok(seq![OpCode::Bool(b)]), st),
            Literal::Nil => (Ok(seq![OpCode::Nil]), st),
        },
        AstNode::Variable(name) => cvariable(st, name@),
        AstNode::Symbol(name) => csymbol(st, name@),
        AstNode::Call { function, arguments, .. } => {
            if (*function matches AstNode::Symbol(name) && fview_has(cx.functions, name@)) {
                match *function {
                    AstNode::Symbol(name) => cffi(cx, st, name@, arguments),
                    _ => (Err(CErr::Unsupported), st),
                }
            } else {
                let (ra, st1) = cargs_rev(cx, st, arguments, arguments.len() as int);
                match ra {
                    Err(e) => (Err(e), st1),
                    Ok(ca) => {
                        let (rf, st2) = cexpr(cx, st1, *function, false);
                        match rf {
                            Err(e) => (Err(e), st2),
                            Ok(cf) => (
                                Ok(ca + cf + seq![call_op(cx, tail, arguments.len() as int)]),
                                st2,
                            ),
                        }
                    },
                }
            }
        },
        AstNode::Lambda { parameters, body, .. } => {
            let st1 = bind_params(enter_scope(st), parameters@, parameters@.len() as int);
            let (rb, st2) = cexpr(cx, st1, *body, true);
            match rb {
                Err(e) => (Err(e), st2),
                Ok(cb) => (
                    Ok(seq![OpCode::MakeClosure(parameters@.len() as usize, cb.len() as usize)] + cb),
                    leave_scope(st2),
                ),
            }
        },
        AstNode::Let { bindings, body, .. } => {
            let (rv, st1) = clet(cx, enter_scope(st), bindings, 0);
            match rv {
                Err(e) => (Err(e), st1),
                Ok(cv) => {
                    let (rb, st2) = cexpr(cx, st1, *body, tail);
                    match rb {
                        Err(e) => (Err(e), st2),
                        Ok(cb) => (Ok(cv + cb), leave_scope(st2)),
                    }
                },
            }
        },
        AstNode::Letrec { bindings, body, .. } => {
            let st0 = bind_names(enter_scope(st), bindings@, bindings@.len() as int);
            let (rv, st1) = cletrec(cx, st0, bindings, 0);
            match rv {
                Err(e) => (Err(e), st1),
                Ok(cv) => {
                    let (rb, st2) = cexpr(cx, st1, *body, tail);
                    match rb {
                        Err(e) => (Err(e), st2),
                        Ok(cb) => (Ok(cv + cb), leave_scope(st2)),
                    }
                },
            }
        },
        AstNode::Define { name, value, .. } => {
            let (rv, st1) = cexpr(cx, st, *value, false);
            match rv {
                Err(e) => (Err(e), st1),
                Ok(cv) => (Ok(cv + seq![OpCode::SetLocal(0)]), bind(st1, name@, 0)),
            }
        },
        AstNode::TrustTier { expression, .. } => cexpr(cx, st, *expression, tail),
        AstNode::RequireCapability { capability, .. } => crequire(st, capability@),
        AstNode::HasCapability { capability, .. } => chas(st, capability@),
        AstNode::If { condition, then_branch, else_branch, .. } => {
            let (rc, st1) = cexpr(cx, st, *condition, false);
            match rc {
                Err(e) => (Err(e), st1),
                Ok(cc) => {
                    let (rt, st2) = cexpr(cx, st1, *then_branch, tail);
                    match rt {
                        Err(e) => (Err(e), st2),
                        Ok(ct) => {
                            let (re, st3) = cexpr(cx, st2, *else_branch, tail);
                            match re {
                                Err(e) => (Err(e), st3),
                                Ok(ce) => (Ok(if_code(cc, ct, ce)), st3),
                            }
                        },
                    }
                },
            }
        },
        AstNode::FfiCall { function, arguments, .. } => cffi(cx, st, function@, arguments),
        _ => (Err(CErr::Unsupported), st),
    }
}

/// What the first `k` arguments of `v` compile to, last first, not in tail
/// position.
pub open spec fn cargs_rev(cx: CCtx, st: CState, v: Vec<AstNode>, k: int) -> COut
    decreases v, k,
{
    if k <= 0 || k > v.len() {
        (Ok(Seq::empty()), st)
    } else {
        let (r1, st1) = cexpr(cx, st, v[k - 1], false);
        match r1 {
            Err(e) => (Err(e), st1),
            Ok(c1) => {
                let (r2, st2) = cargs_rev(cx, st1, v, k - 1);
                match r2 {
                    Err(e) => (Err(e), st2),
                    Ok(c2) => (Ok(c1 + c2), st2),
                }
            },
        }
    }
}

/// What the bindings of a `let` from the `i`th on compile to: each value,
/// then a store into slot 0, with the name bound to slot 0.
pub open spec fn clet(cx: CCtx, st: CState, v: Vec<(String, AstNode)>, i: int) -> COut
    decreases v, v.len() - i,
{
    if i < 0 || i >= v.len() {
        (Ok(Seq::empty()), st)
    } else {
        let (r1, st1) = cexpr(cx, st, v[i].1, false);
        match r1 {
            Err(e) => (Err(e), st1),
            Ok(c1) => {
                let (r2, st2) = clet(cx, bind(st1, v[i].0@, 0), v, i + 1);
                match r2 {
                    Err(e) => (Err(e), st2),
                    Ok(c2) => (Ok(c1 + seq![OpCode::SetLocal(0)] + c2), st2),
                }
            },
        }
    }
}

/// What the bindings of a `letrec` from the `i`th on compile to: each value,
/// then a store into the slot its name is bound to.
pub open spec fn cletrec(cx: CCtx, st: CState, v: Vec<(String, AstNode)>, i: int) -> COut
    decreases v, v.len() - i,
{
    if i < 0 || i >= v.len() {
        (Ok(Seq::empty()), st)
    } else {
        let (r1, st1) = cexpr(cx, st, v[i].1, false);
        match r1 {
            Err(e) => (Err(e), st1),
            Ok(c1) => {
                let store = match st1.vars.get(v[i].0@) {
                    Some(k) => seq![OpCode::SetLocal(k as u16)],
                    None => Seq::empty(),
                };
                let (r2, st2) = cletrec(cx, st1, v, i + 1);
                match r2 {
                    Err(e) => (Err(e), st2),
                    Ok(c2) => (Ok(c1 + store + c2), st2),
                }
            },
        }
    }
}

/// What a call of the foreign function `name` compiles to: with more than
/// two arguments, a left fold of binary host calls; otherwise the
/// arguments, last first, then one host call.
pub open spec fn cffi(cx: CCtx, st: CState, name: Seq<char>, v: Vec<AstNode>) -> COut
    decreases v, v.len() + 3,
{
    if v.len() > 2 {
        cnary(cx, st, name, v)
    } else {
        cbinary(cx, st, name, v)
    }
}

/// The binary host call of the foreign function `f`.
pub open spec fn fold_op(cx: CCtx, f: FfiFunctionView) -> OpCode {
    OpCode::HostCall {
        cap_idx: ffi_capability_slot(cx, f.required_capability),
        func_id: host_function_number(f.host_function),
        args: 2,
    }
}

/// What a left fold of the foreign function `name` over `v` compiles to:
/// with no argument, the operation's identity (0 for `add` and `fadd`, 1
/// for `mul` and `fmul`, nil otherwise); else the first argument, then each
/// next one followed by a binary host call.
pub open spec fn cnary(cx: CCtx, st: CState, name: Seq<char>, v: Vec<AstNode>) -> COut
    decreases v, v.len() + 2,
{
    if v.len() == 0 {
        if name == "add"@ || name == "fadd"@ {
            (Ok(seq![OpCode::Int(0)]), st)
        } else if name == "mul"@ || name == "fmul"@ {
            (Ok(seq![OpCode::Int(1)]), st)
        } else {
            (Ok(seq![OpCode::Nil]), st)
        }
    } else if !fview_has(cx.functions, name) {
        (Err(CErr::FfiFunctionNotFound(name)), st)
    } else {
        let op = fold_op(cx, cx.functions[fview_pos(cx.functions, name)]);
        let (r0, st1) = cexpr(cx, st, v[0], false);
        match r0 {
            Err(e) => (Err(e), st1),
            Ok(c0) => {
                let (r1, st2) = cfold(cx, st1, v, 1, op);
                match r1 {
                    Err(e) => (Err(e), st2),
                    Ok(c1) => (Ok(c0 + c1), st2),
                }
            },
        }
    }
}

/// What a call of the foreign function `name` on the arguments `v`
/// compiles to: the arguments, last first, then one host call (the argument
/// count taken modulo 256).
pub open spec fn cbinary(cx: CCtx, st: CState, name: Seq<char>, v: Vec<AstNode>) -> COut
    decreases v, v.len() + 2,
{
    let (ra, st1) = cargs_rev(cx, st, v, v.len() as int);
    match ra {
        Err(e) => (Err(e), st1),
        Ok(ca) => if !fview_has(cx.functions, name) {
            (Err(CErr::FfiFunctionNotFound(name)), st1)
        } else {
            let f = cx.functions[fview_pos(cx.functions, name)];
            (
                Ok(ca + seq![
                    OpCode::HostCall {
                        cap_idx: ffi_capability_slot(cx, f.required_capability),
                        func_id: host_function_number(f.host_function),
                        args: v.len() as u8,
                    },
                ]),
                st1,
            )
        },
    }
}

/// What the arguments of a folded foreign call from the `i`th on compile
/// to: each one followed by the binary host call `op`.
pub open spec fn cfold(cx: CCtx, st: CState, v: Vec<AstNode>, i: int, op: OpCode) -> COut
    decreases v, v.len() - i,
{
    if i < 0 || i >= v.len() {
        (Ok(Seq::empty()), st)
    } else {
        let (r1, st1) = cexpr(cx, st, v[i], false);
        match r1 {
            Err(e) => (Err(e), st1),
            Ok(c1) => {
                let (r2, st2) = cfold(cx, st1, v, i + 1, op);
                match r2 {
                    Err(e) => (Err(e), st2),
                    Ok(c2) => (Ok(c1 + seq![op] + c2), st2),
                }
            },
        }
    }
}


/// The capabilities that the capability requests of `code` name, in order,
/// as indices into `table` (requests of an index outside the table are
/// skipped).
pub open spec fn requested_capabilities(code: Seq<OpCode>, table: Seq<Capability>) -> Seq<Capability>
    decreases code.len(),
{
    if code.len() == 0 {
        Seq::empty()
    } else {
        let rest = requested_capabilities(code.drop_last(), table);
        match code.last() {
            OpCode::RequestCap(i, _) => if i < table.len() {
                rest.push(table[i as int])
            } else {
                rest
            },
            _ => rest,
        }
    }
}

/// The checks put before the code of an empirical program: for each
/// capability, a test of it and a jump that skips two instructions when it
/// is not held.
pub open spec fn check_preamble(caps: Seq<Capability>, table: Seq<Capability>) -> Seq<OpCode>
    decreases caps.len(),
{
    if caps.len() == 0 {
        Seq::empty()
    } else {
        check_preamble(caps.drop_last(), table) + seq![
            OpCode::HasCap(find_from(table, caps.last(), 0) as usize),
            OpCode::JmpIfFalse(2),
        ]
    }
}

/// The code of an experimental program inside its sandbox: set-up, the
/// code, clean-up, and the handler of violations.
pub open spec fn sandboxed(code: Seq<OpCode>) -> Seq<OpCode> {
    seq![
        OpCode::InitSandbox,
        OpCode::IsolateCapabilities,
        OpCode::SetErrorHandler((code.len() + 2) as i16),
    ] + code + seq![OpCode::CleanupSandbox, OpCode::LogSandboxViolation]
}

/// What a program compiles to for a tier, from the code of its expression
/// and the capability table: empirical code is preceded by checks of the
/// capabilities it requests, experimental code is sandboxed, and formal and
/// verified code is left as it is.
pub open spec fn tier_code(tier: TrustTier, code: Seq<OpCode>, table: Seq<Capability>) -> Seq<OpCode> {
    match tier {
        TrustTier::Empirical => {
            let caps = requested_capabilities(code, table);
            if caps.len() == 0 {
                code
            } else {
                check_preamble(caps, table) + code
            }
        },
        TrustTier::Experimental => sandboxed(code),
        _ => code,
    }
}

/// A value found in a table has a position in it.
pub proof fn lemma_find_from_found<T>(s: Seq<T>, x: T, i: int, j: int)
    requires
        0 <= i <= j < s.len(),
        s[j] == x,
    ensures
        i <= find_from(s, x, i) <= j,
        s[find_from(s, x, i)] == x,
    decreases j - i,
{
    if s[i] != x {
        lemma_find_from_found(s, x, i + 1, j);
    }
}

/// Every requested capability is in the table.
pub proof fn lemma_requested_in_table(code: Seq<OpCode>, table: Seq<Capability>)
    ensures
        forall|k: int|
            0 <= k < requested_capabilities(code, table).len() ==> table.contains(
                requested_capabilities(code, table)[k],
            ),
    decreases code.len(),
{
    if code.len() > 0 {
        lemma_requested_in_table(code.drop_last(), table);
        let rest = requested_capabilities(code.drop_last(), table);
        match code.last() {
            OpCode::RequestCap(i, _) => if i < table.len() {
                assert forall|k: int|
                    0 <= k < rest.push(table[i as int]).len() implies table.contains(
                    rest.push(table[i as int])[k],
                ) by {
                    if k == rest.len() {
                        assert(table[i as int] == table[i as int]);
                    }
                }
            },
            _ => {},
        }
    }
}

/// The size of a tree: the number of its nodes. Compiling recurses on
/// smaller trees.
pub open spec fn ast_size(n: AstNode) -> nat
    decreases n, 0int,
{
    1 + match n {
        AstNode::Call { function, arguments, .. } => ast_size(*function) + nodes_size(
            arguments,
            arguments.len() as int,
        ),
        AstNode::Lambda { body, .. } => ast_size(*body),
        AstNode::Let { bindings, body, .. } => binds_size(bindings, bindings.len() as int) + ast_size(
            *body,
        ),
        AstNode::Letrec { bindings, body, .. } => binds_size(bindings, bindings.len() as int)
            + ast_size(*body),
        AstNode::Define { value, .. } => ast_size(*value),
        AstNode::TrustTier { expression, .. } => ast_size(*expression),
        AstNode::If { condition, then_branch, else_branch, .. } => ast_size(*condition) + ast_size(
            *then_branch,
        ) + ast_size(*else_branch),
        AstNode::FfiCall { arguments, .. } => nodes_size(arguments, arguments.len() as int),
        _ => 0,
    }
}

/// The summed size of the first `k` trees of `v`.
pub open spec fn nodes_size(v: Vec<AstNode>, k: int) -> nat
    decreases v, k,
{
    if k <= 0 || k > v.len() {
        0
    } else {
        nodes_size(v, k - 1) + ast_size(v[k - 1])
    }
}

/// The summed size of the values of the first `k` bindings of `v`.
pub open spec fn binds_size(v: Vec<(String, AstNode)>, k: int) -> nat
    decreases v, k,
{
    if k <= 0 || k > v.len() {
        0
    } else {
        binds_size(v, k - 1) + ast_size(v[k - 1].1)
    }
}

/// Each tree of `v` is no larger than all of them together.
proof fn lemma_nodes_size(v: Vec<AstNode>, k: int, j: int)
    requires
        0 <= j < k <= v.len(),
    ensures
        ast_size(v[j]) <= nodes_size(v, k),
    decreases k,
{
    if j < k - 1 {
        lemma_nodes_size(v, k - 1, j);
    }
}

/// Each binding's value is no larger than all of them together.
proof fn lemma_binds_size(v: Vec<(String, AstNode)>, k: int, j: int)
    requires
        0 <= j < k <= v.len(),
    ensures
        ast_size(v[j].1) <= binds_size(v, k),
    decreases k,
{
    if j < k - 1 {
        lemma_binds_size(v, k - 1, j);
    }
}

/// The state of a new compiler: nothing interned, nothing bound, an empty
/// frame and no saved frame.
pub open spec fn empty_cstate() -> CState {
    CState {
        pool: Seq::empty(),
        caps: Seq::empty(),
        vars: Map::empty(),
        outer: Seq::empty(),
        frame: 0,
        saved: Seq::empty(),
    }
}

/// What a new compiler depends on: the standard foreign functions, and tail
/// calls on.
pub open spec fn standard_cctx() -> CCtx {
    CCtx {
        functions: crate::standard_functions::standard_ffi_table(),
        capability_indices: crate::standard_functions::standard_capability_indices(),
        tail_calls: true,
    }
}

/// A call node of `f` on `args`.
pub open spec fn call_node(f: AstNode, args: Vec<AstNode>) -> AstNode {
    AstNode::Call { function: Box::new(f), arguments: args, location: unknown_location() }
}

/// Does the outcome `r`, with the compiler now in state `st`, agree with
/// what `out` says the compilation gives.
pub open spec fn compiled(out: COut, r: Result<Vec<OpCode>, CompilationError>, st: CState) -> bool {
    match out.0 {
        Ok(code) => (r matches Ok(bc) && bc@ == code) && st == out.1,
        Err(e) => r matches Err(err) && cerr_matches(err, e),
    }
}

/// Does `m` start with the text that reports a node that cannot be
/// compiled.
pub open spec fn unsupported_message(m: Seq<char>) -> bool {
    let prefix = "Unsupported AST node for Physics-World compilation: "@;
    m.len() >= prefix.len() && m.subrange(0, prefix.len() as int) == prefix
}

/// Is `err` the error that reports `e`.
pub open spec fn cerr_matches(err: CompilationError, e: CErr) -> bool {
    match e {
        CErr::VariableNotFound(n) => err matches CompilationError::VariableNotFound(x) && x@ == n,
        CErr::UnknownCapability(n) => err matches CompilationError::InternalError(m) && m@
            == "Unknown capability: "@ + n,
        CErr::FfiFunctionNotFound(n) => err matches CompilationError::FfiFunctionNotFound(x) && x@
            == n,
        CErr::Unsupported => err matches CompilationError::InternalError(m) && unsupported_message(m@),
    }
}

/// A one-instruction program.
fn single(op: OpCode) -> (r: Vec<OpCode>)
    ensures
        r@ == seq![op],
{
    let mut v: Vec<OpCode> = Vec::new();
    v.push(op);
    assert(v@ =~= seq![op]);
    v
}

/// The compiler of trees to bytecode.
pub struct PhysicsWorldCompiler {
    /// The trust tier compiled for.
    pub tier: TrustTier,
    /// The current source location.
    pub location: SourceLocation,
    /// The capabilities used, by index.
    pub capability_indices: Vec<Capability>,
    /// The string constants, by index.
    pub string_pool: Vec<String>,
    /// The foreign functions that may be called.
    pub ffi_registry: FfiCallGenerator,
    /// The variables' offsets.
    pub environment: CompilationEnvironment,
    /// Whether a recursive lambda is being compiled.
    pub is_compiling_recursive_lambda: bool,
    /// Whether calls in tail position stay plain calls.
    pub disable_tco: bool,
}

impl PhysicsWorldCompiler {
    /// The state that compiling threads through a tree.
    pub open spec fn cstate(&self) -> CState {
        CState {
            pool: string_views(self.string_pool@),
            caps: self.capability_indices@,
            vars: self.environment.variables(),
            outer: self.environment.outer_variables(),
            frame: self.environment.frame_size,
            saved: self.environment.saved_frame_sizes@,
        }
    }

    /// What compiling depends on besides its state.
    pub open spec fn cctx(&self) -> CCtx {
        CCtx {
            functions: function_views(self.ffi_registry.registry.functions@),
            capability_indices: self.ffi_registry.registry.capability_indices@,
            tail_calls: !self.disable_tco,
        }
    }

    /// The environment and the registry are well formed.
    pub open spec fn wf(&self) -> bool {
        &&& self.environment.wf()
        &&& self.ffi_registry.registry.wf()
    }

    /// `next` is this compiler, well formed, with what compiling depends on
    /// unchanged.
    pub open spec fn same_setup(&self, next: &Self) -> bool {
        &&& next.wf()
        &&& next.cctx() == self.cctx()
        &&& next.tier == self.tier
    }

    /// A compiler for `tier`, with the standard foreign functions, tail
    /// calls on, and nothing interned or bound yet.
    pub fn new(tier: TrustTier) -> (r: Self)
        ensures
            r.wf(),
            r.tier == tier,
            r.cstate() == empty_cstate(),
            r.cctx() == standard_cctx(),
    {
        let r = PhysicsWorldCompiler {
            tier,
            location: default_location(),
            capability_indices: Vec::new(),
            string_pool: Vec::new(),
            ffi_registry: FfiCallGenerator { registry: create_standard_ffi_registry(), location: default_location() },
            environment: CompilationEnvironment::new(),
            is_compiling_recursive_lambda: false,
            disable_tco: false,
        };
        assert(r.cstate().pool =~= Seq::<Seq<char>>::empty());
        assert(r.cstate() =~= empty_cstate());
        r
    }

    /// Compiles `ast`, in tail position if `in_tail_position`.
    pub fn compile_to_physics_with_tail_context(&mut self, ast: &AstNode, in_tail_position: bool) -> (r: Result<
        Vec<OpCode>,
        CompilationError,
    >)
        requires
            old(self).wf(),
        ensures
            old(self).same_setup(final(self)),
            compiled(cexpr(old(self).cctx(), old(self).cstate(), *ast, in_tail_position), r, final(self).cstate()),
        decreases 4 * ast_size(*ast) + 1,
    {
        match ast {
            AstNode::Literal(lit) => self.compile_literal(lit),
            AstNode::Variable(name) => self.compile_variable(name.as_str()),
            AstNode::Symbol(name) => self.compile_symbol(name.as_str()),
            AstNode::Call { function, arguments, .. } => {
                proof {
                    assert(ast_size(call_node(**function, *arguments)) == ast_size(*ast));
                }
                self.compile_call(&**function, arguments, in_tail_position)
            },
            AstNode::Lambda { parameters, body, .. } => self.compile_lambda(parameters, &**body),
            AstNode::Let { bindings, body, .. } => self.compile_let(bindings, &**body, in_tail_position),
            AstNode::TrustTier { expression, .. } => self.compile_to_physics_with_tail_context(
                &**expression,
                in_tail_position,
            ),
            AstNode::RequireCapability { capability, .. } => self.compile_require_capability_string(
                capability.as_str(),
            ),
            AstNode::HasCapability { capability, .. } => self.compile_has_capability_string(
                capability.as_str(),
            ),
            AstNode::If { condition, then_branch, else_branch, .. } => self.compile_if(
                &**condition,
                &**then_branch,
                &**else_branch,
                in_tail_position,
            ),
            AstNode::FfiCall { function, arguments, location } => self.compile_ffi_call(
                function.as_str(),
                arguments,
                location,
            ),
            AstNode::Define { name, value, .. } => self.compile_define(name.clone(), &**value),
            AstNode::Letrec { bindings, body, .. } => self.compile_letrec(
                bindings,
                &**body,
                in_tail_position,
            ),
            _ => {
                let mut m = String::from_str("Unsupported AST node for Physics-World compilation: ");
                let d = debug_node(ast);
                m.append(d.as_str());
                proof {
                    let prefix = "Unsupported AST node for Physics-World compilation: "@;
                    assert(m@.subrange(0, prefix.len() as int) =~= prefix);
                }
                Err(CompilationError::InternalError(m))
            },
        }
    }

    /// Compiles `ast`, not in tail position.
    pub fn compile_to_physics(&mut self, ast: &AstNode) -> (r: Result<Vec<OpCode>, CompilationError>)
        requires
            old(self).wf(),
        ensures
            old(self).same_setup(final(self)),
            compiled(cexpr(old(self).cctx(), old(self).cstate(), *ast, false), r, final(self).cstate()),
    {
        self.compile_to_physics_with_tail_context(ast, false)
    }

    /// Compiles a literal: strings are interned and loaded by index.
    pub fn compile_literal(&mut self, lit: &Literal) -> (r: Result<Vec<OpCode>, CompilationError>)
        requires
            old(self).wf(),
        ensures
            old(self).same_setup(final(self)),
            compiled(
                cexpr(old(self).cctx(), old(self).cstate(), AstNode::Literal(*lit), false),
                r,
                final(self).cstate(),
            ),
    {
        match lit {
            Literal::Int(value) => Ok(single(OpCode::Int(*value))),
            Literal::Float(value) => Ok(single(OpCode::Float(value.clone()))),
            Literal::String(value) => {
                let string_index = self.get_string_index(value.as_str());
                Ok(single(OpCode::LoadString(string_index)))
            },
            Literal::Bool(value) => Ok(single(OpCode::Bool(*value))),
            Literal::Nil => Ok(single(OpCode::Nil)),
        }
    }

    /// Compiles a reference to the variable `name`.
    pub fn compile_variable(&mut self, name: &str) -> (r: Result<Vec<OpCode>, CompilationError>)
        requires
            old(self).wf(),
        ensures
            old(self).same_setup(final(self)),
            compiled(cvariable(old(self).cstate(), name@), r, final(self).cstate()),
    {
        match self.environment.get_variable_index(name) {
            Some(index) => Ok(single(OpCode::GetLocal(index as u16))),
            None => Err(CompilationError::VariableNotFound(to_owned_string(name))),
        }
    }

    /// Compiles the symbol `name`.
    pub fn compile_symbol(&mut self, name: &str) -> (r: Result<Vec<OpCode>, CompilationError>)
        requires
            old(self).wf(),
        ensures
            old(self).same_setup(final(self)),
            compiled(csymbol(old(self).cstate(), name@), r, final(self).cstate()),
    {
        let symbol_index = self.get_string_index(name);
        Ok(single(OpCode::Symbol(symbol_index)))
    }

    /// Compiles the arguments of a call, last first, not in tail position.
    fn compile_arguments_reversed(&mut self, arguments: &Vec<AstNode>) -> (r: Result<
        Vec<OpCode>,
        CompilationError,
    >)
        requires
            old(self).wf(),
        ensures
            old(self).same_setup(final(self)),
            compiled(
                cargs_rev(old(self).cctx(), old(self).cstate(), *arguments, arguments@.len() as int),
                r,
                final(self).cstate(),
            ),
        decreases 4 * nodes_size(*arguments, arguments@.len() as int) + 2,
    {
        let mut bytecode: Vec<OpCode> = Vec::new();
        let mut k: usize = arguments.len();
        let ghost cx = self.cctx();
        let ghost st0 = self.cstate();
        while k > 0
            invariant
                k <= arguments@.len(),
                old(self).same_setup(self),
                cx == old(self).cctx(),
                st0 == old(self).cstate(),
                ({
                    let total = cargs_rev(cx, st0, *arguments, arguments@.len() as int);
                    let rest = cargs_rev(cx, self.cstate(), *arguments, k as int);
                    total == (match rest.0 {
                        Ok(c) => (Ok(bytecode@ + c), rest.1),
                        Err(e) => (Err(e), rest.1),
                    })
                }),
            decreases k,
        {
            proof {
                lemma_nodes_size(*arguments, arguments@.len() as int, k - 1);
            }
            let ghost st_before = self.cstate();
            let mut code = match self.compile_to_physics_with_tail_context(&arguments[k - 1], false) {
                Ok(c) => c,
                Err(e) => {
                    return Err(e);
                },
            };
            let ghost c1 = code@;
            let ghost b0 = bytecode@;
            bytecode.append(&mut code);
            k = k - 1;
            proof {
                let rest = cargs_rev(cx, self.cstate(), *arguments, k as int);
                match rest.0 {
                    Ok(c2) => {
                        assert(b0 + c1 + c2 =~= b0 + (c1 + c2));
                    },
                    Err(e) => {},
                }
            }
        }
        proof {
            assert(bytecode@ + Seq::<OpCode>::empty() =~= bytecode@);
        }
        Ok(bytecode)
    }

    /// Compiles a call of `function` on `arguments`: a call of a registered
    /// foreign function named by a symbol becomes a host call; any other call
    /// pushes the arguments, last first, then the function, then calls it
    /// (a tail call in tail position unless tail calls are off).
    pub fn compile_call(&mut self, function: &AstNode, arguments: &Vec<AstNode>, in_tail_position: bool) -> (r: Result<
        Vec<OpCode>,
        CompilationError,
    >)
        requires
            old(self).wf(),
        ensures
            old(self).same_setup(final(self)),
            compiled(
                cexpr(old(self).cctx(), old(self).cstate(), call_node(*function, *arguments), in_tail_position),
                r,
                final(self).cstate(),
            ),
        decreases 4 * (ast_size(*function) + nodes_size(*arguments, arguments@.len() as int)) + 3,
    {
        if let AstNode::Symbol(name) = function {
            proof {
                lemma_view_lookup(self.ffi_registry.registry.functions@, name@);
            }
            let is_ffi_function = self.ffi_registry.registry.find_function(name.as_str()).is_some();
            if is_ffi_function {
                let location = self.location;
                return self.compile_ffi_call(name.as_str(), arguments, &location);
            }
        }
        let mut bytecode = match self.compile_arguments_reversed(arguments) {
            Ok(c) => c,
            Err(e) => {
                return Err(e);
            },
        };
        let mut f = match self.compile_to_physics_with_tail_context(function, false) {
            Ok(c) => c,
            Err(e) => {
                return Err(e);
            },
        };
        let ghost ca = bytecode@;
        let ghost cf = f@;
        bytecode.append(&mut f);
        let n = arguments.len() as u16;
        if in_tail_position && !self.disable_tco {
            bytecode.push(OpCode::TailCall(n));
        } else {
            bytecode.push(OpCode::Call(n));
        }
        assert(bytecode@ =~= ca + cf + seq![call_op(old(self).cctx(), in_tail_position, arguments@.len() as int)]);
        Ok(bytecode)
    }

    /// Compiles a lambda: a closure of the parameter count and the body's
    /// length, followed by the body, compiled in tail position with each
    /// parameter bound to its position.
    pub fn compile_lambda(&mut self, parameters: &Vec<String>, body: &AstNode) -> (r: Result<
        Vec<OpCode>,
        CompilationError,
    >)
        requires
            old(self).wf(),
        ensures
            old(self).same_setup(final(self)),
            compiled(
                cexpr(
                    old(self).cctx(),
                    old(self).cstate(),
                    AstNode::Lambda { parameters: *parameters, body: Box::new(*body), location: unknown_location() },
                    false,
                ),
                r,
                final(self).cstate(),
            ),
        decreases 4 * ast_size(*body) + 3,
    {
        let ghost st0 = self.cstate();
        self.environment.push_scope();
        let mut i: usize = 0;
        while i < parameters.len()
            invariant
                i <= parameters@.len(),
                old(self).same_setup(self),
                self.cstate() == bind_params(enter_scope(st0), parameters@, i as int),
            decreases parameters@.len() - i,
        {
            self.environment.add_variable(parameters[i].clone(), i);
            i = i + 1;
        }
        let mut body_bytecode = match self.compile_to_physics_with_tail_context(body, true) {
            Ok(c) => c,
            Err(e) => {
                return Err(e);
            },
        };
        self.environment.pop_scope();
        let mut bytecode: Vec<OpCode> = Vec::new();
        bytecode.push(OpCode::MakeClosure(parameters.len(), body_bytecode.len()));
        bytecode.append(&mut body_bytecode);
        Ok(bytecode)
    }

    /// Compiles a `let`: each value, then a store of it into slot 0 (the name
    /// is bound to slot 0), then the body.
    pub fn compile_let(&mut self, bindings: &Vec<(String, AstNode)>, body: &AstNode, in_tail_position: bool) -> (r: Result<
        Vec<OpCode>,
        CompilationError,
    >)
        requires
            old(self).wf(),
        ensures
            old(self).same_setup(final(self)),
            compiled(
                cexpr(
                    old(self).cctx(),
                    old(self).cstate(),
                    AstNode::Let { bindings: *bindings, body: Box::new(*body), location: unknown_location() },
                    in_tail_position,
                ),
                r,
                final(self).cstate(),
            ),
        decreases 4 * (binds_size(*bindings, bindings@.len() as int) + ast_size(*body)) + 3,
    {
        let ghost cx = self.cctx();
        self.environment.push_scope();
        let ghost st1 = self.cstate();
        assert(st1 == enter_scope(old(self).cstate()));
        let mut bytecode: Vec<OpCode> = Vec::new();
        let mut i: usize = 0;
        while i < bindings.len()
            invariant
                i <= bindings@.len(),
                old(self).same_setup(self),
                cx == old(self).cctx(),
                st1 == enter_scope(old(self).cstate()),
                ({
                    let total = clet(cx, st1, *bindings, 0);
                    let rest = clet(cx, self.cstate(), *bindings, i as int);
                    total == (match rest.0 {
                        Ok(c) => (Ok(bytecode@ + c), rest.1),
                        Err(e) => (Err(e), rest.1),
                    })
                }),
            decreases bindings@.len() - i,
        {
            proof {
                lemma_binds_size(*bindings, bindings@.len() as int, i as int);
            }
            let ghost st_before = self.cstate();
            let mut value = match self.compile_to_physics_with_tail_context(&bindings[i].1, false) {
                Ok(c) => c,
                Err(e) => {
                    return Err(e);
                },
            };
            let ghost b0 = bytecode@;
            let ghost c1 = value@;
            let ghost st_v = self.cstate();
            let ghost st_i = st_before;
            bytecode.append(&mut value);
            let index = self.environment.add_variable(bindings[i].0.clone(), 0);
            bytecode.push(OpCode::SetLocal(index as u16));
            proof {
                assert(bytecode@ =~= b0 + c1 + seq![OpCode::SetLocal(0)]);
                assert(self.cstate() == bind(st_v, bindings@[i as int].0@, 0));
                assert(cexpr(cx, st_i, bindings@[i as int].1, false) == (Ok::<Seq<OpCode>, CErr>(c1), st_v));
            }
            i = i + 1;
            proof {
                let rest = clet(cx, self.cstate(), *bindings, i as int);
                match rest.0 {
                    Ok(c2) => {
                        assert(b0 + c1 + seq![OpCode::SetLocal(0)] + c2 =~= b0 + (c1 + seq![OpCode::SetLocal(0)] + c2));
                    },
                    Err(e) => {},
                }
            }
        }
        let mut body_bytecode = match self.compile_to_physics_with_tail_context(body, in_tail_position) {
            Ok(c) => c,
            Err(e) => {
                return Err(e);
            },
        };
        self.environment.pop_scope();
        proof {
            assert(bytecode@ + Seq::<OpCode>::empty() =~= bytecode@);
        }
        bytecode.append(&mut body_bytecode);
        Ok(bytecode)
    }

    /// Compiles a `letrec`: every name is first bound to slot 0, so that the
    /// values can refer to each other; then each value, and a store into
    /// the slot its name is bound to; then the body.
    pub fn compile_letrec(&mut self, bindings: &Vec<(String, AstNode)>, body: &AstNode, in_tail_position: bool) -> (r: Result<
        Vec<OpCode>,
        CompilationError,
    >)
        requires
            old(self).wf(),
        ensures
            old(self).same_setup(final(self)),
            compiled(
                cexpr(
                    old(self).cctx(),
                    old(self).cstate(),
                    AstNode::Letrec { bindings: *bindings, body: Box::new(*body), location: unknown_location() },
                    in_tail_position,
                ),
                r,
                final(self).cstate(),
            ),
        decreases 4 * (binds_size(*bindings, bindings@.len() as int) + ast_size(*body)) + 3,
    {
        let ghost cx = self.cctx();
        let ghost st0 = self.cstate();
        self.environment.push_scope();
        let mut j: usize = 0;
        while j < bindings.len()
            invariant
                j <= bindings@.len(),
                old(self).same_setup(self),
                cx == old(self).cctx(),
                st0 == old(self).cstate(),
                self.cstate() == bind_names(enter_scope(st0), bindings@, j as int),
            decreases bindings@.len() - j,
        {
            self.environment.add_variable(bindings[j].0.clone(), 0);
            j = j + 1;
        }
        let ghost st1 = self.cstate();
        let mut bytecode: Vec<OpCode> = Vec::new();
        let mut i: usize = 0;
        while i < bindings.len()
            invariant
                i <= bindings@.len(),
                old(self).same_setup(self),
                cx == old(self).cctx(),
                st1 == bind_names(enter_scope(st0), bindings@, bindings@.len() as int),
                st0 == old(self).cstate(),
                ({
                    let total = cletrec(cx, st1, *bindings, 0);
                    let rest = cletrec(cx, self.cstate(), *bindings, i as int);
                    total == (match rest.0 {
                        Ok(c) => (Ok(bytecode@ + c), rest.1),
                        Err(e) => (Err(e), rest.1),
                    })
                }),
            decreases bindings@.len() - i,
        {
            proof {
                lemma_binds_size(*bindings, bindings@.len() as int, i as int);
            }
            let ghost st_before = self.cstate();
            let mut value = match self.compile_to_physics_with_tail_context(&bindings[i].1, false) {
                Ok(c) => c,
                Err(e) => {
                    return Err(e);
                },
            };
            let ghost b0 = bytecode@;
            let ghost c1 = value@;
            let ghost st_v = self.cstate();
            proof {
                assert(cexpr(cx, st_before, bindings@[i as int].1, false) == (Ok::<Seq<OpCode>, CErr>(c1), st_v));
            }
            bytecode.append(&mut value);
            let ghost b1 = bytecode@;
            if let Some(index) = self.environment.get_variable_index(bindings[i].0.as_str()) {
                bytecode.push(OpCode::SetLocal(index as u16));
            }
            let ghost store = bytecode@.subrange(b1.len() as int, bytecode@.len() as int);
            i = i + 1;
            proof {
                let rest = cletrec(cx, self.cstate(), *bindings, i as int);
                match rest.0 {
                    Ok(c2) => {
                        assert(bytecode@ =~= b0 + c1 + store);
                        assert(store == match st_v.vars.get(bindings@[i - 1].0@) {
                            Some(k) => seq![OpCode::SetLocal(k as u16)],
                            None => Seq::<OpCode>::empty(),
                        });
                        assert(b0 + c1 + store + c2 =~= b0 + (c1 + store + c2));
                    },
                    Err(e) => {},
                }
            }
        }
        let mut body_bytecode = match self.compile_to_physics_with_tail_context(body, in_tail_position) {
            Ok(c) => c,
            Err(e) => {
                return Err(e);
            },
        };
        self.environment.pop_scope();
        proof {
            assert(bytecode@ + Seq::<OpCode>::empty() =~= bytecode@);
        }
        bytecode.append(&mut body_bytecode);
        Ok(bytecode)
    }

    /// Compiles a top-level definition: the value, then a store into slot 0,
    /// to which the name is bound.
    pub fn compile_define(&mut self, name: String, value: &AstNode) -> (r: Result<Vec<OpCode>, CompilationError>)
        requires
            old(self).wf(),
        ensures
            old(self).same_setup(final(self)),
            compiled(
                cexpr(
                    old(self).cctx(),
                    old(self).cstate(),
                    AstNode::Define { name, value: Box::new(*value), location: unknown_location() },
                    false,
                ),
                r,
                final(self).cstate(),
            ),
        decreases 4 * ast_size(*value) + 3,
    {
        let mut bytecode = match self.compile_to_physics_with_tail_context(value, false) {
            Ok(c) => c,
            Err(e) => {
                return Err(e);
            },
        };
        let ghost cv = bytecode@;
        let index = self.environment.add_variable(name, 0);
        bytecode.push(OpCode::SetLocal(index as u16));
        assert(bytecode@ =~= cv + seq![OpCode::SetLocal(0)]);
        Ok(bytecode)
    }

    /// Compiles `(require-capability name)`, `name` being a capability's
    /// variant name.
    pub fn compile_require_capability_string(&mut self, capability: &str) -> (r: Result<
        Vec<OpCode>,
        CompilationError,
    >)
        requires
            old(self).wf(),
        ensures
            old(self).same_setup(final(self)),
            compiled(crequire(old(self).cstate(), capability@), r, final(self).cstate()),
    {
        let cap = match string_to_capability(capability) {
            Some(c) => c,
            None => {
                let mut m = String::from_str("Unknown capability: ");
                m.append(capability);
                return Err(CompilationError::InternalError(m));
            },
        };
        let cap_index = self.get_capability_index(&cap);
        Ok(single(OpCode::RequestCap(cap_index, 0)))
    }

    /// Compiles `(has-capability? name)`, `name` being a capability's
    /// variant name.
    pub fn compile_has_capability_string(&mut self, capability: &str) -> (r: Result<
        Vec<OpCode>,
        CompilationError,
    >)
        requires
            old(self).wf(),
        ensures
            old(self).same_setup(final(self)),
            compiled(chas(old(self).cstate(), capability@), r, final(self).cstate()),
    {
        let cap = match string_to_capability(capability) {
            Some(c) => c,
            None => {
                let mut m = String::from_str("Unknown capability: ");
                m.append(capability);
                return Err(CompilationError::InternalError(m));
            },
        };
        let cap_index = self.get_capability_index(&cap);
        Ok(single(OpCode::HasCap(cap_index)))
    }

    /// Compiles a conditional: the condition, a jump to the else branch when
    /// it is false, the then branch, a jump over the else branch, and the
    /// else branch; both branches in tail position if the conditional is.
    pub fn compile_if(
        &mut self,
        condition: &AstNode,
        then_branch: &AstNode,
        else_branch: &AstNode,
        in_tail_position: bool,
    ) -> (r: Result<Vec<OpCode>, CompilationError>)
        requires
            old(self).wf(),
        ensures
            old(self).same_setup(final(self)),
            compiled(
                cexpr(
                    old(self).cctx(),
                    old(self).cstate(),
                    AstNode::If {
                        condition: Box::new(*condition),
                        then_branch: Box::new(*then_branch),
                        else_branch: Box::new(*else_branch),
                        location: unknown_location(),
                    },
                    in_tail_position,
                ),
                r,
                final(self).cstate(),
            ),
        decreases 4 * (ast_size(*condition) + ast_size(*then_branch) + ast_size(*else_branch)) + 3,
    {
        let mut bytecode = match self.compile_to_physics_with_tail_context(condition, false) {
            Ok(c) => c,
            Err(e) => {
                return Err(e);
            },
        };
        let mut then_code = match self.compile_to_physics_with_tail_context(then_branch, in_tail_position) {
            Ok(c) => c,
            Err(e) => {
                return Err(e);
            },
        };
        let mut else_code = match self.compile_to_physics_with_tail_context(else_branch, in_tail_position) {
            Ok(c) => c,
            Err(e) => {
                return Err(e);
            },
        };
        let else_offset = ((then_code.len() as u128) + 1) as i16;
        let skip_else_offset = else_code.len() as i16;
        let ghost cc = bytecode@;
        let ghost ct = then_code@;
        let ghost ce = else_code@;
        bytecode.push(OpCode::JmpIfFalse(else_offset));
        bytecode.append(&mut then_code);
        bytecode.push(OpCode::Jmp(skip_else_offset));
        bytecode.append(&mut else_code);
        assert(bytecode@ =~= if_code(cc, ct, ce));
        Ok(bytecode)
    }

    /// The index that a host call uses for capability `c`.
    fn ffi_slot(&self, c: &Option<Capability>) -> (r: usize)
        requires
            self.wf(),
        ensures
            r == ffi_capability_slot(self.cctx(), *c),
    {
        match c {
            Some(x) => match self.ffi_registry.registry.get_capability_index(&Some(*x)) {
                Some(k) => {
                    proof {
                        let ci = self.ffi_registry.registry.capability_indices@;
                        let j = choose|j: int| 0 <= j < ci.len() && ci[j].0 == Some(*x);
                        assert(j == k as int);
                    }
                    k
                },
                None => 0,
            },
            None => 0,
        }
    }

    /// Compiles a call of the foreign function `function`: with more than
    /// two arguments, a left fold of binary host calls; otherwise the
    /// arguments, last first, then one host call.
    pub fn compile_ffi_call(&mut self, function: &str, arguments: &Vec<AstNode>, location: &SourceLocation) -> (r: Result<
        Vec<OpCode>,
        CompilationError,
    >)
        requires
            old(self).wf(),
        ensures
            old(self).same_setup(final(self)),
            compiled(cffi(old(self).cctx(), old(self).cstate(), function@, *arguments), r, final(self).cstate()),
        decreases 4 * nodes_size(*arguments, arguments@.len() as int) + 4,
    {
        if arguments.len() > 2 {
            self.compile_nary_associative(function, arguments)
        } else {
            self.compile_binary_ffi_call(function, arguments)
        }
    }

    /// Compiles a left fold of the foreign function `function` over the
    /// arguments: `(add a b c)` as `(add (add a b) c)`.
    fn compile_nary_associative(&mut self, function: &str, arguments: &Vec<AstNode>) -> (r: Result<
        Vec<OpCode>,
        CompilationError,
    >)
        requires
            old(self).wf(),
        ensures
            old(self).same_setup(final(self)),
            compiled(cnary(old(self).cctx(), old(self).cstate(), function@, *arguments), r, final(self).cstate()),
        decreases 4 * nodes_size(*arguments, arguments@.len() as int) + 3,
    {
        if arguments.len() == 0 {
            if str_eq(function, "add") || str_eq(function, "fadd") {
                return Ok(single(OpCode::Int(0)));
            } else if str_eq(function, "mul") || str_eq(function, "fmul") {
                return Ok(single(OpCode::Int(1)));
            } else {
                return Ok(single(OpCode::Nil));
            }
        }
        proof {
            lemma_view_lookup(self.ffi_registry.registry.functions@, function@);
        }
        let (cap, host) = match self.ffi_registry.registry.find_function(function) {
            Some(f) => (f.required_capability, f.host_function),
            None => {
                return Err(CompilationError::FfiFunctionNotFound(to_owned_string(function)));
            },
        };
        let cap_idx = self.ffi_slot(&cap);
        let func_id = host_function_id(host);
        let ghost cx = self.cctx();
        let ghost op = OpCode::HostCall { cap_idx, func_id, args: 2 };
        proof {
            lemma_nodes_size(*arguments, arguments@.len() as int, 0);
        }
        let mut bytecode = match self.compile_to_physics_with_tail_context(&arguments[0], false) {
            Ok(c) => c,
            Err(e) => {
                return Err(e);
            },
        };
        let ghost b_first = bytecode@;
        let ghost st1 = self.cstate();
        let mut i: usize = 1;
        while i < arguments.len()
            invariant
                1 <= i <= arguments@.len(),
                old(self).same_setup(self),
                cx == old(self).cctx(),
                op == (OpCode::HostCall { cap_idx, func_id, args: 2 }),
                fview_has(cx.functions, function@),
                op == fold_op(cx, cx.functions[fview_pos(cx.functions, function@)]),
                cexpr(cx, old(self).cstate(), arguments@[0], false) == (Ok::<Seq<OpCode>, CErr>(b_first), st1),
                ({
                    let total = cfold(cx, st1, *arguments, 1, op);
                    let rest = cfold(cx, self.cstate(), *arguments, i as int, op);
                    total == (match rest.0 {
                        Ok(c) => (Ok(bytecode@.subrange(b_first.len() as int, bytecode@.len() as int) + c), rest.1),
                        Err(e) => (Err(e), rest.1),
                    })
                }),
                bytecode@.subrange(0, b_first.len() as int) == b_first,
                b_first.len() <= bytecode@.len(),
            decreases arguments@.len() - i,
        {
            proof {
                lemma_nodes_size(*arguments, arguments@.len() as int, i as int);
            }
            let mut next = match self.compile_to_physics_with_tail_context(&arguments[i], false) {
                Ok(c) => c,
                Err(e) => {
                    return Err(e);
                },
            };
            let ghost b0 = bytecode@;
            let ghost c1 = next@;
            bytecode.append(&mut next);
            bytecode.push(OpCode::HostCall { cap_idx, func_id, args: 2 });
            i = i + 1;
            proof {
                assert(bytecode@ =~= b0 + c1 + seq![op]);
                assert(bytecode@.subrange(0, b_first.len() as int) =~= b0.subrange(0, b_first.len() as int));
                let rest = cfold(cx, self.cstate(), *arguments, i as int, op);
                match rest.0 {
                    Ok(c2) => {
                        let mid = b0.subrange(b_first.len() as int, b0.len() as int);
                        assert(bytecode@.subrange(b_first.len() as int, bytecode@.len() as int) =~= mid + c1 + seq![op]);
                        assert(mid + c1 + seq![op] + c2 =~= mid + (c1 + seq![op] + c2));
                    },
                    Err(e) => {},
                }
            }
        }
        proof {
            assert(bytecode@ =~= b_first + bytecode@.subrange(b_first.len() as int, bytecode@.len() as int));
            assert(bytecode@.subrange(b_first.len() as int, bytecode@.len() as int) + Seq::<OpCode>::empty()
                =~= bytecode@.subrange(b_first.len() as int, bytecode@.len() as int));
        }
        Ok(bytecode)
    }

    /// Compiles a call of the foreign function `function` with at most two
    /// arguments: the arguments, last first, then one host call.
    fn compile_binary_ffi_call(&mut self, function: &str, arguments: &Vec<AstNode>) -> (r: Result<
        Vec<OpCode>,
        CompilationError,
    >)
        requires
            old(self).wf(),
        ensures
            old(self).same_setup(final(self)),
            compiled(cbinary(old(self).cctx(), old(self).cstate(), function@, *arguments), r, final(self).cstate()),
        decreases 4 * nodes_size(*arguments, arguments@.len() as int) + 3,
    {
        let mut bytecode = match self.compile_arguments_reversed(arguments) {
            Ok(c) => c,
            Err(e) => {
                return Err(e);
            },
        };
        proof {
            lemma_view_lookup(self.ffi_registry.registry.functions@, function@);
        }
        let (cap, host) = match self.ffi_registry.registry.find_function(function) {
            Some(f) => (f.required_capability, f.host_function),
            None => {
                return Err(CompilationError::FfiFunctionNotFound(to_owned_string(function)));
            },
        };
        let cap_idx = self.ffi_slot(&cap);
        let ghost ca = bytecode@;
        let op = OpCode::HostCall { cap_idx, func_id: host_function_id(host), args: arguments.len() as u8 };
        bytecode.push(op);
        assert(bytecode@ =~= ca + seq![op]);
        Ok(bytecode)
    }

    /// Puts, before `bytecode`, a check of each capability it requests; the
    /// code is left as it is where it requests none.
    pub fn insert_runtime_capability_checks(&mut self, bytecode: Vec<OpCode>) -> (r: Result<
        Vec<OpCode>,
        CompilationError,
    >)
        requires
            old(self).wf(),
        ensures
            old(self).same_setup(final(self)),
            final(self).cstate() == old(self).cstate(),
            r matches Ok(bc) && bc@ == ({
                let caps = requested_capabilities(bytecode@, old(self).cstate().caps);
                if caps.len() == 0 {
                    bytecode@
                } else {
                    check_preamble(caps, old(self).cstate().caps) + bytecode@
                }
            }),
    {
        let required_caps = self.analyze_capabilities_from_bytecode(bytecode.as_slice());
        if required_caps.len() == 0 {
            return Ok(bytecode);
        }
        let ghost table = self.capability_indices@;
        proof {
            lemma_requested_in_table(bytecode@, table);
        }
        let mut check_bytecode: Vec<OpCode> = Vec::new();
        let mut i: usize = 0;
        while i < required_caps.len()
            invariant
                i <= required_caps@.len(),
                required_caps@ == requested_capabilities(bytecode@, table),
                forall|k: int| 0 <= k < required_caps@.len() ==> table.contains(required_caps@[k]),
                old(self).same_setup(self),
                self.cstate() == old(self).cstate(),
                table == old(self).cstate().caps,
                check_bytecode@ == check_preamble(required_caps@.take(i as int), table),
            decreases required_caps@.len() - i,
        {
            let c = required_caps[i];
            proof {
                let j = choose|j: int| 0 <= j < table.len() && table[j] == c;
                lemma_find_from_found(table, c, 0, j);
            }
            let cap_index = self.get_capability_index(&c);
            check_bytecode.push(OpCode::HasCap(cap_index));
            check_bytecode.push(OpCode::JmpIfFalse(2));
            proof {
                assert(required_caps@.take(i as int + 1).drop_last() =~= required_caps@.take(i as int));
                assert(check_bytecode@ =~= check_preamble(required_caps@.take(i as int + 1), table));
            }
            i = i + 1;
        }
        assert(required_caps@.take(required_caps@.len() as int) =~= required_caps@);
        let ghost pre = check_bytecode@;
        let mut main = bytecode;
        check_bytecode.append(&mut main);
        Ok(check_bytecode)
    }

    /// Wraps `bytecode` in a sandbox: set-up, the code, clean-up, and the
    /// handler of violations.
    pub fn add_sandbox_wrapper(&mut self, bytecode: Vec<OpCode>) -> (r: Result<Vec<OpCode>, CompilationError>)
        ensures
            *final(self) == *old(self),
            r matches Ok(bc) && bc@ == sandboxed(bytecode@),
    {
        let mut wrapper: Vec<OpCode> = Vec::new();
        wrapper.push(OpCode::InitSandbox);
        wrapper.push(OpCode::IsolateCapabilities);
        let error_handler_offset = ((bytecode.len() as u128) + 2) as i16;
        wrapper.push(OpCode::SetErrorHandler(error_handler_offset));
        let ghost code = bytecode@;
        let mut main = bytecode;
        wrapper.append(&mut main);
        wrapper.push(OpCode::CleanupSandbox);
        wrapper.push(OpCode::LogSandboxViolation);
        assert(wrapper@ =~= sandboxed(code));
        Ok(wrapper)
    }

    /// The capabilities that the capability requests of `bytecode` name, in
    /// order.
    pub fn analyze_capabilities_from_bytecode(&mut self, bytecode: &[OpCode]) -> (r: Vec<Capability>)
        ensures
            *final(self) == *old(self),
            r@ == requested_capabilities(bytecode@, old(self).capability_indices@),
    {
        let mut required_caps: Vec<Capability> = Vec::new();
        let mut i: usize = 0;
        while i < bytecode.len()
            invariant
                i <= bytecode@.len(),
                *self == *old(self),
                required_caps@ == requested_capabilities(bytecode@.take(i as int), self.capability_indices@),
            decreases bytecode@.len() - i,
        {
            assert(bytecode@.take(i as int + 1).drop_last() =~= bytecode@.take(i as int));
            if let OpCode::RequestCap(cap_index, _) = &bytecode[i] {
                if *cap_index < self.capability_indices.len() {
                    required_caps.push(self.capability_indices[*cap_index]);
                }
            }
            i = i + 1;
        }
        assert(bytecode@.take(bytecode@.len() as int) =~= bytecode@);
        required_caps
    }

    /// The index of `capability`, added to the table if it is not there.
    pub fn get_capability_index(&mut self, capability: &Capability) -> (r: usize)
        requires
            old(self).wf(),
        ensures
            old(self).same_setup(final(self)),
            (r as int, final(self).cstate()) == intern_capability(old(self).cstate(), *capability),
    {
        let mut i: usize = 0;
        while i < self.capability_indices.len()
            invariant
                i <= self.capability_indices@.len(),
                *self == *old(self),
                old(self).wf(),
                forall|j: int| 0 <= j < i ==> self.capability_indices@[j] != *capability,
                find_from(self.capability_indices@, *capability, 0) == find_from(
                    self.capability_indices@,
                    *capability,
                    i as int,
                ),
            decreases self.capability_indices@.len() - i,
        {
            if self.capability_indices[i] == *capability {
                return i;
            }
            i = i + 1;
        }
        self.capability_indices.push(*capability);
        proof {
            assert(self.cstate() == (CState { caps: old(self).capability_indices@.push(*capability), ..old(self).cstate() }));
        }
        self.capability_indices.len() - 1
    }

    /// The index of `string` in the constant pool, added to the pool if it
    /// is not there.
    pub fn get_string_index(&mut self, string: &str) -> (r: usize)
        requires
            old(self).wf(),
        ensures
            old(self).same_setup(final(self)),
            (r as int, final(self).cstate()) == intern_string(old(self).cstate(), string@),
    {
        let ghost pool = string_views(self.string_pool@);
        let mut i: usize = 0;
        while i < self.string_pool.len()
            invariant
                i <= self.string_pool@.len(),
                *self == *old(self),
                old(self).wf(),
                pool == string_views(self.string_pool@),
                find_from(pool, string@, 0) == find_from(pool, string@, i as int),
            decreases self.string_pool@.len() - i,
        {
            if str_eq(self.string_pool[i].as_str(), string) {
                assert(pool[i as int] == string@);
                return i;
            }
            assert(pool[i as int] != string@);
            i = i + 1;
        }
        self.string_pool.push(to_owned_string(string));
        proof {
            assert(string_views(self.string_pool@) =~= pool.push(string@));
        }
        self.string_pool.len() - 1
    }
}

/// Compiles `ast` for `tier` with a new compiler: the expression's code,
/// processed for the tier (see `tier_code`), and the string constants it
/// interned, in order.
pub fn compile_to_physics_world(ast: &AstNode, tier: TrustTier) -> (r: Result<
    (Vec<OpCode>, Vec<Value>),
    CompilationError,
>)
    ensures
        ({
            let (out, st) = cexpr(standard_cctx(), empty_cstate(), *ast, false);
            match out {
                Ok(code) => r matches Ok((bc, consts)) && bc@ == tier_code(tier, code, st.caps)
                    && consts@.len() == st.pool.len() && forall|i: int|
                    0 <= i < consts@.len() ==> (#[trigger] consts@[i] matches Value::String(x) && x@ == st.pool[i]),
                Err(e) => r matches Err(err) && cerr_matches(err, e),
            }
        }),
{
    let mut compiler = PhysicsWorldCompiler::new(tier);
    let mut bytecode = match compiler.compile_to_physics(ast) {
        Ok(c) => c,
        Err(e) => {
            return Err(e);
        },
    };
    let ghost st = compiler.cstate();
    match tier {
        TrustTier::Empirical => {
            bytecode = match compiler.insert_runtime_capability_checks(bytecode) {
                Ok(c) => c,
                Err(e) => {
                    return Err(e);
                },
            };
        },
        TrustTier::Experimental => {
            bytecode = match compiler.add_sandbox_wrapper(bytecode) {
                Ok(c) => c,
                Err(e) => {
                    return Err(e);
                },
            };
        },
        _ => {},
    }
    let mut string_constants: Vec<Value> = Vec::new();
    let mut i: usize = 0;
    while i < compiler.string_pool.len()
        invariant
            i <= compiler.string_pool@.len(),
            st.pool == string_views(compiler.string_pool@),
            string_constants@.len() == i,
            forall|k: int|
                0 <= k < i ==> (#[trigger] string_constants@[k] matches Value::String(x) && x@ == st.pool[k]),
        decreases compiler.string_pool@.len() - i,
    {
        string_constants.push(Value::String(compiler.string_pool[i].clone()));
        i = i + 1;
    }
    Ok((bytecode, string_constants))
}

} // verus!
