//! What the lexers, the capability tables and the two code generators do,
//! stated over all inputs in terms of the inputs and the results.
use vstd::prelude::*;
use crate::ast::AstNode;
use crate::bytecode_generation::{BState, lower, lower_all};
use crate::capability_analyzer::ffi_capability_spec;
use crate::capability_ffi::ffi_host_spec;
use crate::error::SourceLocation;
use crate::parser::string_scan;
use crate::physics::{OpCode, host_function_capability};
use crate::physics_compiler::{CCtx, CState, cexpr, fview_has};
use crate::token::TokenView;
use crate::tokenizer::{lex_from, punct_token};

verus! {

/// In the stack code of a conditional, the condition's code comes first,
/// then a jump taken when it is false that lands on the first instruction
/// of the else branch, then the then branch, then an unconditional jump
/// whose offset is the length of the else branch's code, so that it lands
/// on the instruction right after the else branch, and then the else
/// branch. Offsets count from the instruction after the jump (modulo 2^16).
pub proof fn lemma_conditional_jumps_land_after_their_branch(
    cx: CCtx,
    st: CState,
    condition: AstNode,
    then_branch: AstNode,
    else_branch: AstNode,
    location: SourceLocation,
    tail: bool,
)
    ensures
        match cexpr(cx, st, condition, false) {
            (Ok(cc), st1) => match cexpr(cx, st1, then_branch, tail) {
                (Ok(ct), st2) => match cexpr(cx, st2, else_branch, tail) {
                    (Ok(ce), st3) => {
                        let whole = cexpr(
                            cx,
                            st,
                            AstNode::If {
                                condition: Box::new(condition),
                                then_branch: Box::new(then_branch),
                                else_branch: Box::new(else_branch),
                                location,
                            },
                            tail,
                        );
                        let jump = cc.len() + 1int + ct.len();
                        &&& whole.1 == st3
                        &&& whole.0 matches Ok(code)
                        &&& code.len() == jump + 1 + ce.len()
                        &&& code.subrange(0, cc.len() as int) == cc
                        &&& code[cc.len() as int] == OpCode::JmpIfFalse((ct.len() + 1) as i16)
                        &&& code.subrange(cc.len() + 1int, jump) == ct
                        &&& code[jump] == OpCode::Jmp(ce.len() as i16)
                        &&& code.subrange(jump + 1, code.len() as int) == ce
                    },
                    _ => true,
                },
                _ => true,
            },
            _ => true,
        },
{
    let (rc, st1) = cexpr(cx, st, condition, false);
    let (rt, st2) = cexpr(cx, st1, then_branch, tail);
    let (re, st3) = cexpr(cx, st2, else_branch, tail);
    if rc is Ok && rt is Ok && re is Ok {
        let cc = rc->Ok_0;
        let ct = rt->Ok_0;
        let ce = re->Ok_0;
        let code = cexpr(
            cx,
            st,
            AstNode::If {
                condition: Box::new(condition),
                then_branch: Box::new(then_branch),
                else_branch: Box::new(else_branch),
                location,
            },
            tail,
        ).0->Ok_0;
        let jump = cc.len() + 1int + ct.len();
        assert(code.subrange(0, cc.len() as int) =~= cc);
        assert(code.subrange(cc.len() + 1int, jump) =~= ct);
        assert(code.subrange(jump + 1, code.len() as int) =~= ce);
    }
}

/// A call of `>` (or `gt`) on two arguments lowers to the code of the first
/// argument, the code of the second, and the single instruction `Gt`.
pub proof fn lemma_greater_than_lowers_to_gt(st: BState, name: String, arguments: Vec<AstNode>, location: SourceLocation)
    requires
        name@ == ">"@ || name@ == "gt"@,
        arguments.len() == 2,
    ensures
        match lower(st, arguments[0]) {
            (Some(a), st1) => match lower(st1, arguments[1]) {
                (Some(b), st2) => lower(
                    st,
                    AstNode::Call { function: Box::new(AstNode::Symbol(name)), arguments, location },
                ) == (Some(a + b + seq![OpCode::Gt]), st2),
                _ => true,
            },
            _ => true,
        },
{
    reveal_strlit(">");
    reveal_strlit("gt");
    reveal_operator_names();
    assert(name@[0] == '>' || name@[0] == 'g');
    reveal_with_fuel(crate::bytecode_generation::lower_all, 3);
    let (ra, st1) = lower(st, arguments[0]);
    let (rb, st2) = lower(st1, arguments[1]);
    assert(crate::bytecode_generation::operator_code(name@, 2) == Some(seq![OpCode::Gt]));
    assert(crate::bytecode_generation::head_operator(AstNode::Symbol(name), 2) == Some(seq![OpCode::Gt]));
    if ra is Some && rb is Some {
        assert(seq![] + ra->Some_0 =~= ra->Some_0);
        assert(crate::bytecode_generation::lower_all(st, arguments, 2) == (Some(ra->Some_0 + rb->Some_0), st2));
    }
}

/// A call of `<` (or `lt`) on two arguments lowers to the code of the first
/// argument, the code of the second, and the single instruction `Lt`; so
/// `(< a b)` and `(> a b)` differ in their last instruction only.
pub proof fn lemma_less_than_lowers_to_lt(st: BState, name: String, arguments: Vec<AstNode>, location: SourceLocation)
    requires
        name@ == "<"@ || name@ == "lt"@,
        arguments.len() == 2,
    ensures
        match lower(st, arguments[0]) {
            (Some(a), st1) => match lower(st1, arguments[1]) {
                (Some(b), st2) => lower(
                    st,
                    AstNode::Call { function: Box::new(AstNode::Symbol(name)), arguments, location },
                ) == (Some(a + b + seq![OpCode::Lt]), st2),
                _ => true,
            },
            _ => true,
        },
{
    reveal_strlit("<");
    reveal_strlit("lt");
    reveal_operator_names();
    assert(name@[0] == '<' || name@[0] == 'l');
    reveal_with_fuel(crate::bytecode_generation::lower_all, 3);
    let (ra, st1) = lower(st, arguments[0]);
    let (rb, st2) = lower(st1, arguments[1]);
    assert(crate::bytecode_generation::operator_code(name@, 2) == Some(seq![OpCode::Lt]));
    assert(crate::bytecode_generation::head_operator(AstNode::Symbol(name), 2) == Some(seq![OpCode::Lt]));
    if ra is Some && rb is Some {
        assert(seq![] + ra->Some_0 =~= ra->Some_0);
        assert(crate::bytecode_generation::lower_all(st, arguments, 2) == (Some(ra->Some_0 + rb->Some_0), st2));
    }
}

/// The texts of the operator names of the lowering.
proof fn reveal_operator_names()
    ensures
        "+"@ =~= seq!['+'],
        "+"@[0] == '+',
        "add"@ =~= seq!['a', 'd', 'd'],
        "add"@[0] == 'a',
        "-"@ =~= seq!['-'],
        "-"@[0] == '-',
        "sub"@ =~= seq!['s', 'u', 'b'],
        "sub"@[0] == 's',
        "*"@ =~= seq!['*'],
        "*"@[0] == '*',
        "mul"@ =~= seq!['m', 'u', 'l'],
        "mul"@[0] == 'm',
        "/"@ =~= seq!['/'],
        "/"@[0] == '/',
        "div"@ =~= seq!['d', 'i', 'v'],
        "div"@[0] == 'd',
        "%"@ =~= seq!['%'],
        "%"@[0] == '%',
        "mod"@ =~= seq!['m', 'o', 'd'],
        "mod"@[0] == 'm',
        "<"@ =~= seq!['<'],
        "<"@[0] == '<',
        "lt"@ =~= seq!['l', 't'],
        "lt"@[0] == 'l',
        ">"@ =~= seq!['>'],
        ">"@[0] == '>',
        "gt"@ =~= seq!['g', 't'],
        "gt"@[0] == 'g',
        "="@ =~= seq!['='],
        "="@[0] == '=',
        "eq"@ =~= seq!['e', 'q'],
        "eq"@[0] == 'e',
{
    reveal_strlit("+");
    reveal_strlit("add");
    reveal_strlit("-");
    reveal_strlit("sub");
    reveal_strlit("*");
    reveal_strlit("mul");
    reveal_strlit("/");
    reveal_strlit("div");
    reveal_strlit("%");
    reveal_strlit("mod");
    reveal_strlit("<");
    reveal_strlit("lt");
    reveal_strlit(">");
    reveal_strlit("gt");
    reveal_strlit("=");
    reveal_strlit("eq");
}

/// In a string literal, a backslash followed by `n`, `t` or `r` reads as the
/// single control character it names (newline, tab, carriage return), not
/// as the letter, and the rest of the literal reads on from after the
/// escape.
pub proof fn lemma_control_escapes_decode(s: Seq<char>, j: int, letter: char, decoded: char)
    requires
        0 <= j,
        j + 1 < s.len(),
        s[j] == '\\',
        s[j + 1] == letter,
        (letter == 'n' && decoded == '\n') || (letter == 't' && decoded == '\t') || (letter == 'r'
            && decoded == '\r'),
    ensures
        decoded != letter,
        string_scan(s, j) == match string_scan(s, j + 2) {
            Ok((t, k)) => Ok((seq![decoded] + t, k)),
            Err(x) => Err(x),
        },
{
}

/// The tokenizer reads `<` as `Less` and `>` as `Greater`, and goes on after
/// it.
pub proof fn lemma_angle_brackets_lex(s: Seq<char>, i: int)
    requires
        0 <= i < s.len(),
        s[i] == '<' || s[i] == '>',
    ensures
        lex_from(s, i) == seq![if s[i] == '<' { TokenView::Less } else { TokenView::Greater }] + lex_from(
            s,
            i + 1,
        ),
{
}

/// Distinct punctuation characters give distinct tokens.
pub proof fn lemma_punctuation_tokens_distinct(a: char, b: char)
    requires
        punct_token(a) is Some,
        a != b,
    ensures
        punct_token(a) != punct_token(b),
{
}

/// The capability that a standard foreign function needs is the one that
/// the physics world asks of the host function behind it; a name with no
/// host function needs none.
pub proof fn lemma_ffi_capability_is_host_capability(name: Seq<char>)
    ensures
        ffi_capability_spec(name) == match ffi_host_spec(name) {
            Some(h) => host_function_capability(h),
            None => None,
        },
{
    reveal_strlit("read-sensor");
    reveal_strlit("write-actuator");
    reveal_strlit("network-send");
    reveal_strlit("network-receive");
    reveal_strlit("persist-write");
    reveal_strlit("persist-read");
    reveal_strlit("get-wall-clock");
    reveal_strlit("spawn-actor");
    reveal_strlit("terminate-actor");
    assert("read-sensor"@[0] == 'r');
    assert("write-actuator"@[0] == 'w');
    assert("network-send"@[0] == 'n');
    assert("network-receive"@[0] == 'n');
    assert("persist-write"@[0] == 'p');
    assert("persist-read"@[0] == 'p');
    assert("get-wall-clock"@[0] == 'g');
    assert("spawn-actor"@[0] == 's');
    assert("terminate-actor"@[0] == 't');
    assert("network-send"@[8] == 's');
    assert("persist-write"@[8] == 'w');
}

/// Each punctuation character reads as the token named after it, on its
/// own, and the tokenizer goes on right after it.
pub proof fn lemma_punctuation_lexes_as_named(s: Seq<char>, i: int, token: TokenView)
    requires
        0 <= i < s.len(),
        (s[i] == '(' && token == TokenView::OpenParen) ||
        (s[i] == ')' && token == TokenView::CloseParen) ||
        (s[i] == '[' && token == TokenView::LeftBracket) ||
        (s[i] == ']' && token == TokenView::RightBracket) ||
        (s[i] == '{' && token == TokenView::LeftBrace) ||
        (s[i] == '}' && token == TokenView::RightBrace) ||
        (s[i] == '.' && token == TokenView::Dot) ||
        (s[i] == ',' && token == TokenView::Comma) ||
        (s[i] == ';' && token == TokenView::Semicolon) ||
        (s[i] == ':' && token == TokenView::Colon) ||
        (s[i] == '\'' && token == TokenView::Quote) ||
        (s[i] == '`' && token == TokenView::Backtick) ||
        (s[i] == '+' && token == TokenView::Plus) ||
        (s[i] == '-' && token == TokenView::Minus) ||
        (s[i] == '*' && token == TokenView::Star) ||
        (s[i] == '/' && token == TokenView::Slash) ||
        (s[i] == '%' && token == TokenView::Percent) ||
        (s[i] == '=' && token == TokenView::Equals) ||
        (s[i] == '!' && token == TokenView::Bang) ||
        (s[i] == '<' && token == TokenView::Less) ||
        (s[i] == '>' && token == TokenView::Greater) ||
        (s[i] == '&' && token == TokenView::Ampersand) ||
        (s[i] == '|' && token == TokenView::Pipe) ||
        (s[i] == '^' && token == TokenView::Caret) ||
        (s[i] == '?' && token == TokenView::Question),
    ensures
        lex_from(s, i) == seq![token] + lex_from(s, i + 1),
{
}

/// In a string literal, the escapes of a quote and of a backslash read as
/// that character, and any other character but a quote or a backslash
/// reads as itself; the rest of the literal reads on after it.
pub proof fn lemma_string_characters_decode(s: Seq<char>, j: int)
    requires
        0 <= j < s.len(),
        s[j] != '"',
    ensures
        s[j] != '\\' ==> string_scan(s, j) == match string_scan(s, j + 1) {
            Ok((t, k)) => Ok((seq![s[j]] + t, k)),
            Err(x) => Err(x),
        },
        s[j] == '\\' && j + 1 < s.len() && (s[j + 1] == '"' || s[j + 1] == '\\') ==> string_scan(s, j)
            == match string_scan(s, j + 2) {
            Ok((t, k)) => Ok((seq![s[j + 1]] + t, k)),
            Err(x) => Err(x),
        },
{
}

/// A call of `+`, `-`, `*`, `/` or `%` (or `add`, `sub`, `mul`, `div`,
/// `mod`) on one or more arguments lowers to the arguments' code in order
/// followed by one instruction of that operation (`Add`, `Sub`, `Mul`,
/// `Div`, `Mod`) for each argument after the first.
pub proof fn lemma_arithmetic_operators_chain(
    st: BState,
    name: String,
    arguments: Vec<AstNode>,
    location: SourceLocation,
    op: OpCode,
)
    requires
        arguments.len() >= 1,
        ((name@ == "+"@ || name@ == "add"@) && op == OpCode::Add) || ((name@ == "-"@ || name@ == "sub"@) && op
            == OpCode::Sub) || ((name@ == "*"@ || name@ == "mul"@) && op == OpCode::Mul) || ((name@ == "/"@
            || name@ == "div"@) && op == OpCode::Div) || ((name@ == "%"@ || name@ == "mod"@) && op
            == OpCode::Mod),
    ensures
        match lower_all(st, arguments, arguments.len() as int) {
            (Some(c), st1) => lower(
                st,
                AstNode::Call { function: Box::new(AstNode::Symbol(name)), arguments, location },
            ) == (Some(c + Seq::new((arguments.len() - 1) as nat, |k: int| op)), st1),
            (None, st1) => lower(
                st,
                AstNode::Call { function: Box::new(AstNode::Symbol(name)), arguments, location },
            ) == (None::<Seq<OpCode>>, st1),
        },
{
    reveal_operator_names();
    let n = arguments.len() as nat;
    if op == OpCode::Add {
        assert(name@[0] == '+' || name@[0] == 'a');
    } else if op == OpCode::Sub {
        assert(name@[0] == '-' || name@[0] == 's');
    } else if op == OpCode::Mul {
        assert(name@[0] == '*' || name@[0] == 'm');
    } else if op == OpCode::Div {
        assert(name@[0] == '/' || name@[0] == 'd');
    } else {
        assert(name@[0] == '%' || name@[0] == 'm');
        assert(name@ != "mul"@) by {
            if name@ == "mul"@ {
                assert(name@[1] == "mod"@[1]);
            }
        }
    }
    assert(crate::bytecode_generation::operator_code(name@, n) == Some(
        crate::bytecode_generation::repeated(op, (n - 1) as nat),
    ));
    assert(crate::bytecode_generation::repeated(op, (n - 1) as nat) =~= Seq::new((n - 1) as nat, |k: int| op));
}

/// A call of `=` (or `eq`) on two arguments lowers to the code of the first
/// argument, the code of the second, and the single instruction `Eq`.
pub proof fn lemma_equality_lowers_to_eq(st: BState, name: String, arguments: Vec<AstNode>, location: SourceLocation)
    requires
        name@ == "="@ || name@ == "eq"@,
        arguments.len() == 2,
    ensures
        match lower(st, arguments[0]) {
            (Some(a), st1) => match lower(st1, arguments[1]) {
                (Some(b), st2) => lower(
                    st,
                    AstNode::Call { function: Box::new(AstNode::Symbol(name)), arguments, location },
                ) == (Some(a + b + seq![OpCode::Eq]), st2),
                _ => true,
            },
            _ => true,
        },
{
    assert(crate::bytecode_generation::operator_code(name@, 2) == Some(seq![OpCode::Eq])) by {
        reveal_operator_names();
        assert(name@[0] == '=' || name@[0] == 'e');
    }
    reveal_with_fuel(crate::bytecode_generation::lower_all, 3);
    let (ra, st1) = lower(st, arguments[0]);
    let (rb, st2) = lower(st1, arguments[1]);
    if ra is Some && rb is Some {
        assert(seq![] + ra->Some_0 =~= ra->Some_0);
        assert(lower_all(st, arguments, 2) == (Some(ra->Some_0 + rb->Some_0), st2));
    }
}

/// A call of two arguments to anything but a registered foreign function
/// compiles to the second argument's code, then the first's (the last
/// argument is pushed first), then the function's code, then a call of two
/// arguments: a tail call exactly where the call is in tail position and
/// tail calls are on.
pub proof fn lemma_two_argument_call_pushes_last_first(
    cx: CCtx,
    st: CState,
    function: AstNode,
    arguments: Vec<AstNode>,
    location: SourceLocation,
    tail: bool,
)
    requires
        arguments.len() == 2,
        !(function matches AstNode::Symbol(name) && fview_has(cx.functions, name@)),
    ensures
        match cexpr(cx, st, arguments[1], false) {
            (Ok(cb), st1) => match cexpr(cx, st1, arguments[0], false) {
                (Ok(ca), st2) => match cexpr(cx, st2, function, false) {
                    (Ok(cf), st3) => cexpr(
                        cx,
                        st,
                        AstNode::Call { function: Box::new(function), arguments, location },
                        tail,
                    ) == (Ok::<Seq<OpCode>, crate::physics_compiler::CErr>(
                        cb + ca + cf + seq![
                            if tail && cx.tail_calls {
                                OpCode::TailCall(2)
                            } else {
                                OpCode::Call(2)
                            },
                        ],
                    ), st3),
                    _ => true,
                },
                _ => true,
            },
            _ => true,
        },
{
    reveal_with_fuel(crate::physics_compiler::cargs_rev, 3);
    let (rb, st1) = cexpr(cx, st, arguments[1], false);
    let (ra, st2) = cexpr(cx, st1, arguments[0], false);
    if rb is Ok && ra is Ok {
        assert(ra->Ok_0 + Seq::<OpCode>::empty() =~= ra->Ok_0);
        assert(crate::physics_compiler::cargs_rev(cx, st1, arguments, 1) == (
            Ok::<Seq<OpCode>, crate::physics_compiler::CErr>(ra->Ok_0),
            st2,
        ));
        assert(crate::physics_compiler::cargs_rev(cx, st, arguments, 2) == (
            Ok::<Seq<OpCode>, crate::physics_compiler::CErr>(rb->Ok_0 + ra->Ok_0),
            st2,
        ));
        let (rf, st3) = cexpr(cx, st2, function, false);
        if rf is Ok {
            assert(rb->Ok_0 + ra->Ok_0 + rf->Ok_0 + seq![crate::physics_compiler::call_op(cx, tail, 2)] =~= rb->Ok_0
                + ra->Ok_0 + rf->Ok_0 + seq![
                if tail && cx.tail_calls {
                    OpCode::TailCall(2)
                } else {
                    OpCode::Call(2)
                },
            ]);
        }
    }
}

/// The code of a lambda is a closure header followed by the body's code:
/// the header holds the number of parameters and the length of the code
/// after it.
pub proof fn lemma_closure_header_counts_its_body(
    cx: CCtx,
    st: CState,
    parameters: Vec<String>,
    body: AstNode,
    location: SourceLocation,
    tail: bool,
)
    ensures
        cexpr(cx, st, AstNode::Lambda { parameters, body: Box::new(body), location }, tail).0 matches Ok(
            code,
        ) ==> code.len() >= 1 && code[0] == OpCode::MakeClosure(
            parameters.len() as usize,
            (code.len() - 1) as usize,
        ),
{
}

} // verus!
