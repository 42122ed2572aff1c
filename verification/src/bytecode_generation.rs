//! Direct lowering of a syntax tree to Physics-World bytecode and its
//! constants, with variables held in a compilation environment.
//!
//! Integer literals are pushed as they are and every other literal as 0;
//! operator calls compile their arguments in order and then the operator's
//! instructions; other calls compile the function, the arguments in order
//! and a call; a `let` reserves a slot (pushing a placeholder 0) for each
//! name before compiling the values, so that the values can refer to each
//! other, then stores each value into its slot and compiles the body; a
//! variable loads its slot (0 is pushed for an unbound one); a symbol is
//! added to the constants and loaded by index; a conditional compiles its
//! parts with placeholder jumps; every other form pushes 0.
//!
//! A lambda compiles its body with its parameters bound in a scope of its
//! own (the body's code itself is not kept), reserves a placeholder
//! constant for the closure's code and makes a closure of it. The closure
//! captures no variable: capture tracking (the environment's closure
//! capture context and its list of scopes) is not part of the compilation
//! environment, so the capture count is 0.
use vstd::prelude::*;
use crate::ast::{AstNode, Literal, bound_trees_size, lemma_bound_trees_size, lemma_trees_size, tree_size, trees_size};
use crate::environment::CompilationEnvironment;
use crate::error::{CompilationError, unknown_location};
use crate::physics::{OpCode, Value};
use crate::text::{str_eq, to_owned_string};

verus! {

/// What lowering threads through a tree: the environment's variables,
/// the variables of its enclosing scopes, the frame size, the saved frame
/// sizes, and the constants so far.
#[verifier::ext_equal]
pub struct BState {
    /// The offset of each variable in force.
    pub vars: Map<Seq<char>, usize>,
    /// The variables in force in each enclosing scope, outermost first.
    pub outer: Seq<Map<Seq<char>, usize>>,
    /// The frame size.
    pub frame: usize,
    /// The saved frame sizes.
    pub saved: Seq<usize>,
    /// The constants.
    pub consts: Seq<Value>,
}

/// The state of a compilation environment and constants.
pub open spec fn bstate(env: CompilationEnvironment, consts: Seq<Value>) -> BState {
    BState {
        vars: env.variables(),
        outer: env.outer_variables(),
        frame: env.frame_size,
        saved: env.saved_frame_sizes@,
        consts,
    }
}

/// The state on entering a scope.
pub open spec fn benter(st: BState) -> BState {
    BState { outer: st.outer.push(st.vars), saved: st.saved.push(st.frame), ..st }
}

/// The state on leaving a scope.
pub open spec fn bleave(st: BState) -> BState {
    let scoped = if st.outer.len() > 0 {
        BState { vars: st.outer.last(), outer: st.outer.drop_last(), ..st }
    } else {
        st
    };
    if st.saved.len() > 0 {
        BState { frame: st.saved.last(), saved: st.saved.drop_last(), ..scoped }
    } else {
        scoped
    }
}

/// The state with `name` bound to the next slot, or `None` where the frame
/// is full (`usize::MAX` slots).
pub open spec fn bdefine(st: BState, name: Seq<char>) -> Option<BState> {
    if st.frame == usize::MAX {
        None
    } else {
        Some(BState { vars: st.vars.insert(name, st.frame), frame: (st.frame + 1) as usize, ..st })
    }
}

/// The state with the first `k` names of `names` bound in turn.
pub open spec fn define_names(st: BState, names: Seq<String>, k: int) -> Option<BState>
    decreases k,
{
    if k <= 0 || k > names.len() {
        Some(st)
    } else {
        match define_names(st, names, k - 1) {
            None => None,
            Some(s) => bdefine(s, names[k - 1]@),
        }
    }
}

/// The state with the names of the first `k` bindings of `v` bound in turn.
pub open spec fn define_bound(st: BState, v: Seq<(String, AstNode)>, k: int) -> Option<BState>
    decreases k,
{
    if k <= 0 || k > v.len() {
        Some(st)
    } else {
        match define_bound(st, v, k - 1) {
            None => None,
            Some(s) => bdefine(s, v[k - 1].0@),
        }
    }
}

/// `n` copies of `op` (none for fewer than two arguments).
pub open spec fn repeated(op: OpCode, n: nat) -> Seq<OpCode> {
    Seq::new(n, |i: int| op)
}

/// The instructions of the operator `name` applied to `n` arguments, or
/// `None` where `name` is no operator. Addition, subtraction,
/// multiplication, division and remainder chain one instruction per
/// argument after the first; `<` and `>` compare two arguments; `=`
/// compares two (and is true of one); `<=` is built from a less-than and an
/// equality; any other count pushes 0.
pub open spec fn operator_code(name: Seq<char>, n: nat) -> Option<Seq<OpCode>> {
    let chained = if n >= 1 { (n - 1) as nat } else { 0nat };
    if name == "+"@ || name == "add"@ {
        Some(repeated(OpCode::Add, chained))
    } else if name == "-"@ || name == "sub"@ {
        Some(repeated(OpCode::Sub, chained))
    } else if name == "*"@ || name == "mul"@ {
        Some(repeated(OpCode::Mul, chained))
    } else if name == "/"@ || name == "div"@ {
        Some(repeated(OpCode::Div, chained))
    } else if name == "%"@ || name == "mod"@ {
        Some(repeated(OpCode::Mod, chained))
    } else if name == "<"@ || name == "lt"@ {
        Some(if n == 2 { seq![OpCode::Lt] } else { seq![OpCode::Int(0)] })
    } else if name == ">"@ || name == "gt"@ {
        Some(if n == 2 { seq![OpCode::Gt] } else { seq![OpCode::Int(0)] })
    } else if name == "="@ || name == "eq"@ {
        Some(
            if n == 1 {
                seq![OpCode::Int(1)]
            } else if n == 2 {
                seq![OpCode::Eq]
            } else {
                seq![OpCode::Int(0)]
            },
        )
    } else if name == "<="@ || name == "le"@ {
        Some(
            if n == 2 {
                seq![OpCode::Dup, OpCode::Dup, OpCode::Lt, OpCode::Swap, OpCode::Eq, OpCode::Add]
            } else {
                seq![OpCode::Int(0)]
            },
        )
    } else {
        None
    }
}

/// The operator a call's head names, if it names one.
pub open spec fn head_operator(f: AstNode, n: nat) -> Option<Seq<OpCode>> {
    match f {
        AstNode::Symbol(s) => operator_code(s@, n),
        _ => None,
    }
}

/// The code of lowering `n` from state `st` (`None` where a frame fills
/// up), and the state afterwards.
pub open spec fn lower(st: BState, n: AstNode) -> (Option<Seq<OpCode>>, BState)
    decreases n, 0int,
{
    match n {
        AstNode::Literal(Literal::Int(v)) => (Some(seq![OpCode::Int(v)]), st),
        AstNode::Lambda { parameters, body, .. } => {
            let st1 = benter(st);
            match define_names(st1, parameters@, parameters.len() as int) {
                None => (None, st1),
                Some(st2) => {
                    let (cb, st3) = lower(st2, *body);
                    match cb {
                        None => (None, st3),
                        Some(_) => {
                            let st4 = bleave(st3);
                            (
                                Some(seq![OpCode::MakeClosure(st4.consts.len() as usize, 0)]),
                                BState { consts: st4.consts.push(Value::Int(0)), ..st4 },
                            )
                        },
                    }
                },
            }
        },
        AstNode::Call { function, arguments, .. } => match head_operator(*function, arguments.len() as nat) {
            Some(ops) => {
                let (ca, st1) = lower_all(st, arguments, arguments.len() as int);
                match ca {
                    None => (None, st1),
                    Some(c) => (Some(c + ops), st1),
                }
            },
            None => {
                let (cf, st1) = lower(st, *function);
                match cf {
                    None => (None, st1),
                    Some(f) => {
                        let (ca, st2) = lower_all(st1, arguments, arguments.len() as int);
                        match ca {
                            None => (None, st2),
                            Some(c) => (Some(f + c + seq![OpCode::Call(arguments.len() as u16)]), st2),
                        }
                    },
                }
            },
        },
        AstNode::Let { bindings, body, .. } => {
            let st1 = benter(st);
            match define_bound(st1, bindings@, bindings.len() as int) {
                None => (None, st1),
                Some(st2) => {
                    let (cv, st3) = lower_values(st2, bindings, bindings.len() as int, st1.frame);
                    match cv {
                        None => (None, st3),
                        Some(v) => {
                            let (cb, st4) = lower(st3, *body);
                            match cb {
                                None => (None, st4),
                                Some(b) => (
                                    Some(repeated(OpCode::Int(0), bindings.len() as nat) + v + b),
                                    bleave(st4),
                                ),
                            }
                        },
                    }
                },
            }
        },
        AstNode::Variable(name) => match st.vars.get(name@) {
            Some(offset) => (Some(seq![OpCode::GetLocal(offset as u16)]), st),
            None => (Some(seq![OpCode::Int(0)]), st),
        },
        AstNode::Symbol(_) => (
            Some(seq![OpCode::Symbol(st.consts.len() as usize)]),
            BState { consts: st.consts.push(Value::Symbol(st.consts.len() as usize)), ..st },
        ),
        AstNode::If { condition, then_branch, else_branch, .. } => {
            let (cc, st1) = lower(st, *condition);
            match cc {
                None => (None, st1),
                Some(c) => {
                    let (ct, st2) = lower(st1, *then_branch);
                    match ct {
                        None => (None, st2),
                        Some(t) => {
                            let (ce, st3) = lower(st2, *else_branch);
                            match ce {
                                None => (None, st3),
                                Some(e) => (
                                    Some(c + seq![OpCode::JmpIfFalse(0)] + t + seq![OpCode::Jmp(0)] + e),
                                    st3,
                                ),
                            }
                        },
                    }
                },
            }
        },
        _ => (Some(seq![OpCode::Int(0)]), st),
    }
}

/// The code of lowering the first `k` trees of `v` in turn.
pub open spec fn lower_all(st: BState, v: Vec<AstNode>, k: int) -> (Option<Seq<OpCode>>, BState)
    decreases v, k,
{
    if k <= 0 || k > v.len() {
        (Some(seq![]), st)
    } else {
        let (c, st1) = lower_all(st, v, k - 1);
        match c {
            None => (None, st1),
            Some(c1) => {
                let (c2, st2) = lower(st1, v[k - 1]);
                match c2 {
                    None => (None, st2),
                    Some(x) => (Some(c1 + x), st2),
                }
            },
        }
    }
}

/// The code of lowering the values of the first `k` bindings of `v`, each
/// followed by a store into its slot (`base` plus its position).
pub open spec fn lower_values(st: BState, v: Vec<(String, AstNode)>, k: int, base: usize) -> (
    Option<Seq<OpCode>>,
    BState,
)
    decreases v, k,
{
    if k <= 0 || k > v.len() {
        (Some(seq![]), st)
    } else {
        let (c, st1) = lower_values(st, v, k - 1, base);
        match c {
            None => (None, st1),
            Some(c1) => {
                let (c2, st2) = lower(st1, v[k - 1].1);
                match c2 {
                    None => (None, st2),
                    Some(x) => (Some(c1 + x + seq![OpCode::SetLocal((base + k - 1) as u16)]), st2),
                }
            },
        }
    }
}

/// The lowering of a whole tree from a new environment and no constants.
pub open spec fn bytecode_of(ast: AstNode) -> (Option<Seq<OpCode>>, BState) {
    lower(
        BState { vars: Map::empty(), outer: Seq::empty(), frame: 0, saved: Seq::empty(), consts: Seq::empty() },
        ast,
    )
}

/// Is `e` the error reported when a frame fills up.
pub open spec fn is_frame_overflow(e: CompilationError) -> bool {
    e matches CompilationError::InternalError(m) && m@ == "Stack frame overflow"@
}

/// Does the outcome `r`, with the code going from `c0` to `c1` and the
/// state ending as `s1`, report the lowering `out`?
pub open spec fn reports(
    out: (Option<Seq<OpCode>>, BState),
    c0: Seq<OpCode>,
    c1: Seq<OpCode>,
    s1: BState,
    r: Result<(), CompilationError>,
) -> bool {
    match out.0 {
        Some(c) => r is Ok && c1 == c0 + c && s1 == out.1,
        None => r matches Err(e) && is_frame_overflow(e),
    }
}

fn frame_overflow() -> (r: CompilationError)
    ensures
        is_frame_overflow(r),
{
    CompilationError::InternalError(to_owned_string("Stack frame overflow"))
}

/// The instructions of the operator `name` on `n` arguments (see
/// `operator_code`).
fn operator_instructions(name: &str, n: usize) -> (r: Option<Vec<OpCode>>)
    ensures
        match operator_code(name@, n as nat) {
            Some(c) => r matches Some(v) && v@ == c,
            None => r is None,
        },
{
    let chained: usize = if n >= 1 { n - 1 } else { 0 };
    let kind: u8 = if str_eq(name, "+") || str_eq(name, "add") {
        0
    } else if str_eq(name, "-") || str_eq(name, "sub") {
        1
    } else if str_eq(name, "*") || str_eq(name, "mul") {
        2
    } else if str_eq(name, "/") || str_eq(name, "div") {
        3
    } else if str_eq(name, "%") || str_eq(name, "mod") {
        4
    } else if str_eq(name, "<") || str_eq(name, "lt") {
        return Some(if n == 2 { vec![OpCode::Lt] } else { vec![OpCode::Int(0)] });
    } else if str_eq(name, ">") || str_eq(name, "gt") {
        return Some(if n == 2 { vec![OpCode::Gt] } else { vec![OpCode::Int(0)] });
    } else if str_eq(name, "=") || str_eq(name, "eq") {
        return Some(
            if n == 1 {
                vec![OpCode::Int(1)]
            } else if n == 2 {
                vec![OpCode::Eq]
            } else {
                vec![OpCode::Int(0)]
            },
        );
    } else if str_eq(name, "<=") || str_eq(name, "le") {
        return Some(
            if n == 2 {
                vec![OpCode::Dup, OpCode::Dup, OpCode::Lt, OpCode::Swap, OpCode::Eq, OpCode::Add]
            } else {
                vec![OpCode::Int(0)]
            },
        );
    } else {
        return None;
    };
    let mut v: Vec<OpCode> = Vec::new();
    let mut i: usize = 0;
    while i < chained
        invariant
            i <= chained,
            kind <= 4,
            v@ == repeated(arithmetic(kind), i as nat),
        decreases chained - i,
    {
        v.push(arithmetic_op(kind));
        i = i + 1;
        assert(v@ =~= repeated(arithmetic(kind), i as nat));
    }
    Some(v)
}

/// The arithmetic instruction numbered `k`: addition, subtraction,
/// multiplication, division and remainder.
pub open spec fn arithmetic(k: u8) -> OpCode {
    if k == 0 {
        OpCode::Add
    } else if k == 1 {
        OpCode::Sub
    } else if k == 2 {
        OpCode::Mul
    } else if k == 3 {
        OpCode::Div
    } else {
        OpCode::Mod
    }
}

fn arithmetic_op(k: u8) -> (r: OpCode)
    ensures
        r == arithmetic(k),
{
    if k == 0 {
        OpCode::Add
    } else if k == 1 {
        OpCode::Sub
    } else if k == 2 {
        OpCode::Mul
    } else if k == 3 {
        OpCode::Div
    } else {
        OpCode::Mod
    }
}

/// Lowers `n` onto `code`, threading the environment and the constants
/// (see `lower`).
fn lower_node(
    env: &mut CompilationEnvironment,
    code: &mut Vec<OpCode>,
    consts: &mut Vec<Value>,
    n: &AstNode,
) -> (r: Result<(), CompilationError>)
    requires
        old(env).wf(),
    ensures
        final(env).wf(),
        reports(
            lower(bstate(*old(env), old(consts)@), *n),
            old(code)@,
            final(code)@,
            bstate(*final(env), final(consts)@),
            r,
        ),
    decreases 2 * tree_size(*n) + 1,
{
    let ghost st = bstate(*env, consts@);
    let ghost c0 = code@;
    match n {
        AstNode::Literal(Literal::Int(v)) => {
            code.push(OpCode::Int(*v));
            assert(code@ =~= c0 + seq![OpCode::Int(*v)]);
            Ok(())
        },
        AstNode::Lambda { parameters, body, .. } => lower_lambda(env, code, consts, parameters, body),
        AstNode::Call { function, arguments, .. } => lower_call(env, code, consts, function, arguments),
        AstNode::Let { bindings, body, .. } => lower_let(env, code, consts, bindings, body),
        AstNode::Variable(name) => {
            match env.lookup_variable(name.as_str()) {
                Some(offset) => {
                    code.push(OpCode::GetLocal(offset as u16));
                    assert(code@ =~= c0 + seq![OpCode::GetLocal(offset as u16)]);
                },
                None => {
                    code.push(OpCode::Int(0));
                    assert(code@ =~= c0 + seq![OpCode::Int(0)]);
                },
            }
            Ok(())
        },
        AstNode::Symbol(_) => {
            let idx = consts.len();
            consts.push(Value::Symbol(idx));
            code.push(OpCode::Symbol(idx));
            assert(code@ =~= c0 + seq![OpCode::Symbol(idx)]);
            Ok(())
        },
        AstNode::If { condition, then_branch, else_branch, .. } => lower_if(env, code, consts, condition, then_branch, else_branch),
        _ => {
            code.push(OpCode::Int(0));
            assert(code@ =~= c0 + seq![OpCode::Int(0)]);
            Ok(())
        },
    }
}

/// Lowers a conditional (see `lower`).
fn lower_if(
    env: &mut CompilationEnvironment,
    code: &mut Vec<OpCode>,
    consts: &mut Vec<Value>,
    condition: &Box<AstNode>,
    then_branch: &Box<AstNode>,
    else_branch: &Box<AstNode>,
) -> (r: Result<(), CompilationError>)
    requires
        old(env).wf(),
    ensures
        final(env).wf(),
        reports(
            lower(
                bstate(*old(env), old(consts)@),
                AstNode::If {
                    condition: *condition,
                    then_branch: *then_branch,
                    else_branch: *else_branch,
                    location: unknown_location(),
                },
            ),
            old(code)@,
            final(code)@,
            bstate(*final(env), final(consts)@),
            r,
        ),
    decreases 2 * (tree_size(**condition) + tree_size(**then_branch) + tree_size(**else_branch)) + 2,
{
    let ghost st = bstate(*env, consts@);
    let ghost c0 = code@;
    match lower_node(env, code, consts, condition) {
        Ok(()) => {},
        Err(e) => {
            return Err(e);
        },
    }
    let ghost cc = lower(st, **condition).0.unwrap();
    let ghost st1 = bstate(*env, consts@);
    assert(code@ =~= c0 + cc);
    code.push(OpCode::JmpIfFalse(0));
    let ghost c2 = code@;
    match lower_node(env, code, consts, then_branch) {
        Ok(()) => {},
        Err(e) => {
            return Err(e);
        },
    }
    let ghost ct = lower(st1, **then_branch).0.unwrap();
    let ghost st2 = bstate(*env, consts@);
    assert(code@ =~= c2 + ct);
    code.push(OpCode::Jmp(0));
    let ghost c4 = code@;
    match lower_node(env, code, consts, else_branch) {
        Ok(()) => {},
        Err(e) => {
            return Err(e);
        },
    }
    let ghost ce = lower(st2, **else_branch).0.unwrap();
    assert(code@ =~= c4 + ce);
    assert(code@ =~= c0 + (cc + seq![OpCode::JmpIfFalse(0)] + ct + seq![OpCode::Jmp(0)] + ce));
    Ok(())
}

/// Lowers a lambda (see `lower`).
#[verifier::loop_isolation(false)]
fn lower_lambda(
    env: &mut CompilationEnvironment,
    code: &mut Vec<OpCode>,
    consts: &mut Vec<Value>,
    parameters: &Vec<String>,
    body: &Box<AstNode>,
) -> (r: Result<(), CompilationError>)
    requires
        old(env).wf(),
    ensures
        final(env).wf(),
        reports(
            lower(
                bstate(*old(env), old(consts)@),
                AstNode::Lambda { parameters: *parameters, body: *body, location: unknown_location() },
            ),
            old(code)@,
            final(code)@,
            bstate(*final(env), final(consts)@),
            r,
        ),
    decreases 2 * tree_size(**body) + 2,
{
    let ghost st = bstate(*env, consts@);
    let ghost c0 = code@;
    env.push_scope();
    let ghost st1 = bstate(*env, consts@);
    assert(st1 == benter(st));
    let mut i: usize = 0;
    while i < parameters.len()
        invariant
            i <= parameters@.len(),
            env.wf(),
            define_names(st1, parameters@, i as int) == Some(bstate(*env, consts@)),
            code@ == c0,
        decreases parameters@.len() - i,
    {
        if env.frame_size == usize::MAX {
            proof {
                assert(define_names(st1, parameters@, i as int + 1) is None);
                lemma_define_names_fails(st1, parameters@, i as int + 1, parameters@.len() as int);
            }
            return Err(frame_overflow());
        }
        let _ = env.define_variable(parameters[i].as_str());
        i = i + 1;
    }
    let ghost st2 = bstate(*env, consts@);
    let mut body_code: Vec<OpCode> = Vec::new();
    match lower_node(env, &mut body_code, consts, body) {
        Ok(()) => {},
        Err(e) => {
            return Err(e);
        },
    }
    let ghost st3 = bstate(*env, consts@);
    env.pop_scope();
    assert(bstate(*env, consts@) == bleave(st3));
    let idx = consts.len();
    consts.push(Value::Int(0));
    code.push(OpCode::MakeClosure(idx, 0));
    assert(code@ =~= c0 + seq![OpCode::MakeClosure(idx, 0)]);
    Ok(())

}

/// Lowers a call (see `lower`).
fn lower_call(
    env: &mut CompilationEnvironment,
    code: &mut Vec<OpCode>,
    consts: &mut Vec<Value>,
    function: &Box<AstNode>,
    arguments: &Vec<AstNode>,
) -> (r: Result<(), CompilationError>)
    requires
        old(env).wf(),
    ensures
        final(env).wf(),
        reports(
            lower(
                bstate(*old(env), old(consts)@),
                AstNode::Call { function: *function, arguments: *arguments, location: unknown_location() },
            ),
            old(code)@,
            final(code)@,
            bstate(*final(env), final(consts)@),
            r,
        ),
    decreases 2 * (tree_size(**function) + trees_size(*arguments, arguments@.len() as int)) + 2,
{
    let ghost st = bstate(*env, consts@);
    let ghost c0 = code@;
    if let AstNode::Symbol(op) = &**function {
        match operator_instructions(op.as_str(), arguments.len()) {
            Some(mut ops) => {
                match lower_nodes(env, code, consts, arguments) {
                    Ok(()) => {},
                    Err(e) => {
                        return Err(e);
                    },
                }
                let ghost ca = code@;
                let ghost ov = ops@;
                assert(ca.subrange(c0.len() as int, ca.len() as int) =~= lower_all(st, *arguments, arguments@.len() as int).0.unwrap());
                code.append(&mut ops);
                assert(code@ =~= c0 + (ca.subrange(c0.len() as int, ca.len() as int) + ov));
                return Ok(());
            },
            None => {},
        }
    }
    match lower_node(env, code, consts, function) {
        Ok(()) => {},
        Err(e) => {
            return Err(e);
        },
    }
    let ghost c1 = code@;
    let ghost st1 = bstate(*env, consts@);
    let ghost fcode = lower(st, **function).0.unwrap();
    assert(c1 =~= c0 + fcode);
    match lower_nodes(env, code, consts, arguments) {
        Ok(()) => {},
        Err(e) => {
            return Err(e);
        },
    }
    let ghost acode = lower_all(st1, *arguments, arguments@.len() as int).0.unwrap();
    let ghost c2 = code@;
    assert(c2 =~= c0 + fcode + acode);
    code.push(OpCode::Call(arguments.len() as u16));
    assert(code@ =~= c0 + (fcode + acode + seq![OpCode::Call(arguments.len() as u16)]));
    Ok(())
}

/// Lowers a `let`: a slot and a placeholder for each name, each value
/// stored into its slot, then the body, in a scope of its own.
#[verifier::loop_isolation(false)]
fn lower_let(
    env: &mut CompilationEnvironment,
    code: &mut Vec<OpCode>,
    consts: &mut Vec<Value>,
    bindings: &Vec<(String, AstNode)>,
    body: &AstNode,
) -> (r: Result<(), CompilationError>)
    requires
        old(env).wf(),
    ensures
        final(env).wf(),
        reports(
            ({
                let st = bstate(*old(env), old(consts)@);
                let st1 = benter(st);
                match define_bound(st1, bindings@, bindings@.len() as int) {
                    None => (None, st1),
                    Some(st2) => {
                        let (cv, st3) = lower_values(st2, *bindings, bindings@.len() as int, st1.frame);
                        match cv {
                            None => (None, st3),
                            Some(v) => {
                                let (cb, st4) = lower(st3, *body);
                                match cb {
                                    None => (None, st4),
                                    Some(b) => (
                                        Some(repeated(OpCode::Int(0), bindings@.len() as nat) + v + b),
                                        bleave(st4),
                                    ),
                                }
                            },
                        }
                    },
                }
            }),
            old(code)@,
            final(code)@,
            bstate(*final(env), final(consts)@),
            r,
        ),
    decreases 2 * (tree_size(*body) + bound_trees_size(*bindings, bindings@.len() as int)) + 2,
{
    let ghost st = bstate(*env, consts@);
    let ghost c0 = code@;
    env.push_scope();
    let ghost st1 = bstate(*env, consts@);
    assert(st1 == benter(st));
    let base = env.frame_size;
    let mut i: usize = 0;
    while i < bindings.len()
        invariant
            i <= bindings@.len(),
            env.wf(),
            define_bound(st1, bindings@, i as int) == Some(bstate(*env, consts@)),
            env.frame_size == base + i,
            code@ == c0 + repeated(OpCode::Int(0), i as nat),
            st1.frame == base,
        decreases bindings@.len() - i,
    {
        if env.frame_size == usize::MAX {
            proof {
                assert(define_bound(st1, bindings@, i as int + 1) is None);
                lemma_define_bound_fails(st1, bindings@, i as int + 1, bindings@.len() as int);
            }
            return Err(frame_overflow());
        }
        let _ = env.define_variable(bindings[i].0.as_str());
        code.push(OpCode::Int(0));
        i = i + 1;
        assert(code@ =~= c0 + repeated(OpCode::Int(0), i as nat));
    }
    let ghost st2 = bstate(*env, consts@);
    assert(define_bound(st1, bindings@, bindings@.len() as int) == Some(st2));
    let ghost c1 = code@;
    let n = bindings.len();
    let ghost mut vc: Seq<OpCode> = seq![];
    let mut j: usize = 0;
    while j < n
        invariant
            j <= n == bindings@.len(),
            env.wf(),
            base + n <= usize::MAX,
            lower_values(st2, *bindings, j as int, base) == (Some(vc), bstate(*env, consts@)),
            code@ == c1 + vc,
        decreases n - j,
    {
        proof {
            lemma_bound_trees_size(*bindings, j as int, n as int);
        }
        let ghost before = code@;
        let ghost sj = bstate(*env, consts@);
        match lower_node(env, code, consts, &bindings[j].1) {
            Ok(()) => {},
            Err(e) => {
                proof {
                    assert(lower_values(st2, *bindings, j as int + 1, base).0 is None);
                    lemma_lower_values_fails(st2, *bindings, j as int + 1, n as int, base);
                }
                return Err(e);
            },
        }
        let ghost x = code@.subrange(before.len() as int, code@.len() as int);
        assert(code@ =~= before + x);
        code.push(OpCode::SetLocal((base + j) as u16));
        proof {
            vc = vc + x + seq![OpCode::SetLocal((base + j) as u16)];
        }
        j = j + 1;
        assert(code@ =~= c1 + vc);
    }
    let ghost st3 = bstate(*env, consts@);
    let ghost before_body = code@;
    match lower_node(env, code, consts, body) {
        Ok(()) => {},
        Err(e) => {
            return Err(e);
        },
    }
    let ghost bc = code@.subrange(before_body.len() as int, code@.len() as int);
    assert(code@ =~= before_body + bc);
    assert(bc =~= lower(st3, *body).0.unwrap());
    env.pop_scope();
    assert(code@ =~= c0 + (repeated(OpCode::Int(0), n as nat) + vc + bc));
    Ok(())
}

/// Lowers the trees of `v` in turn.
#[verifier::loop_isolation(false)]
fn lower_nodes(
    env: &mut CompilationEnvironment,
    code: &mut Vec<OpCode>,
    consts: &mut Vec<Value>,
    v: &Vec<AstNode>,
) -> (r: Result<(), CompilationError>)
    requires
        old(env).wf(),
    ensures
        final(env).wf(),
        reports(
            lower_all(bstate(*old(env), old(consts)@), *v, v@.len() as int),
            old(code)@,
            final(code)@,
            bstate(*final(env), final(consts)@),
            r,
        ),
    decreases 2 * trees_size(*v, v@.len() as int) + 2,
{
    let ghost st = bstate(*env, consts@);
    let ghost c0 = code@;
    let n = v.len();
    let ghost mut acc: Seq<OpCode> = seq![];
    let mut i: usize = 0;
    while i < n
        invariant
            i <= n == v@.len(),
            env.wf(),
            lower_all(st, *v, i as int) == (Some(acc), bstate(*env, consts@)),
            code@ == c0 + acc,
        decreases n - i,
    {
        proof {
            lemma_trees_size(*v, i as int, n as int);
        }
        let ghost before = code@;
        match lower_node(env, code, consts, &v[i]) {
            Ok(()) => {},
            Err(e) => {
                proof {
                    assert(lower_all(st, *v, i as int + 1).0 is None);
                    lemma_lower_all_fails(st, *v, i as int + 1, n as int);
                }
                return Err(e);
            },
        }
        let ghost x = code@.subrange(before.len() as int, code@.len() as int);
        assert(code@ =~= before + x);
        proof {
            acc = acc + x;
        }
        i = i + 1;
        assert(code@ =~= c0 + acc);
    }
    Ok(())
}

/// Lowers a tree from a new environment: its code and the constants it
/// made (see `bytecode_of`). Lowering fails only where a frame would need
/// more than `usize::MAX` slots.
pub fn compile_ast_to_bytecode(ast: &AstNode) -> (r: Result<(Vec<OpCode>, Vec<Value>), CompilationError>)
    ensures
        match bytecode_of(*ast) {
            (Some(c), s) => r matches Ok((code, consts)) && code@ == c && consts@ == s.consts,
            (None, _) => r matches Err(e) && is_frame_overflow(e),
        },
{
    let mut env = CompilationEnvironment::new();
    let mut bytecode: Vec<OpCode> = Vec::new();
    let mut constants: Vec<Value> = Vec::new();
    assert(bstate(env, constants@) =~= BState {
        vars: Map::empty(),
        outer: Seq::empty(),
        frame: 0,
        saved: Seq::empty(),
        consts: Seq::empty(),
    });
    match lower_node(&mut env, &mut bytecode, &mut constants, ast) {
        Ok(()) => {},
        Err(e) => {
            return Err(e);
        },
    }
    assert(bytecode@ =~= Seq::<OpCode>::empty() + bytecode@);
    Ok((bytecode, constants))
}

proof fn lemma_define_names_fails(st: BState, names: Seq<String>, i: int, k: int)
    requires
        0 <= i <= k <= names.len(),
        define_names(st, names, i) is None,
    ensures
        define_names(st, names, k) is None,
    decreases k - i,
{
    if k > i {
        lemma_define_names_fails(st, names, i, k - 1);
    }
}

proof fn lemma_define_bound_fails(st: BState, v: Seq<(String, AstNode)>, i: int, k: int)
    requires
        0 <= i <= k <= v.len(),
        define_bound(st, v, i) is None,
    ensures
        define_bound(st, v, k) is None,
    decreases k - i,
{
    if k > i {
        lemma_define_bound_fails(st, v, i, k - 1);
    }
}

proof fn lemma_lower_all_fails(st: BState, v: Vec<AstNode>, i: int, k: int)
    requires
        0 <= i <= k <= v.len(),
        lower_all(st, v, i).0 is None,
    ensures
        lower_all(st, v, k).0 is None,
    decreases k - i,
{
    if k > i {
        lemma_lower_all_fails(st, v, i, k - 1);
    }
}

proof fn lemma_lower_values_fails(st: BState, v: Vec<(String, AstNode)>, i: int, k: int, base: usize)
    requires
        0 <= i <= k <= v.len(),
        lower_values(st, v, i, base).0 is None,
    ensures
        lower_values(st, v, k, base).0 is None,
    decreases k - i,
{
    if k > i {
        lemma_lower_values_fails(st, v, i, k - 1, base);
    }
}

} // verus!
