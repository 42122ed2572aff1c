//! The expression parser: it builds a syntax tree from tokens by recursive
//! descent.
//!
//! The grammar is stated by the spec functions `pexpr`, `plist`, `pitems`,
//! `pparams` and `pbindings`, which say where a well-formed expression that
//! starts at a given token ends, or with which message parsing fails; the
//! parser's contracts hold it to them.
use vstd::prelude::*;
use crate::ast::{AstNode, Literal};
use crate::ast_view::{LiteralView, NodeView, node_view, nodes_view, all_nodes_view, bindings_view,
    strings_view, lemma_nodes_view, lemma_bindings_view};
use crate::error::{CompilationError, SourceLocation, unknown_location, default_location};
use crate::token::{Token, TokenView, token_views};
use crate::tokenizer::{digits_value, lemma_digits_value_prefix};
use crate::text::{
    alphanumeric, is_decimal_digit, debug_char_text, debug_str_text, str_eq,
    to_owned_string, char_is_alphanumeric, debug_char,
};

verus! {

/// The special form a list is, as decided by the token after its opening
/// parenthesis.
pub enum ListForm {
    /// `(:tier e)`
    TrustTier,
    /// `(lambda params body)`
    Lambda,
    /// `(let bindings body)`
    Let,
    /// `(if c t e)`
    If,
    /// `(require-capability c)`
    RequireCapability,
    /// `(has-capability? c)`
    HasCapability,
    /// `(defmacro name params body)`
    MacroDefinition,
    /// `(comptime-eval e)`
    ComptimeEval,
    /// `(ffi-call name args...)`
    FfiCall,
    /// `((f ...) args...)`
    CallWithExpression,
    /// `(f args...)`
    CallWithSymbol,
}

/// The special form named by the token `h` that follows an opening
/// parenthesis.
pub open spec fn list_form(h: TokenView) -> ListForm {
    match h {
        TokenView::Symbol(s) => if s.len() > 0 && s[0] == ':' {
            ListForm::TrustTier
        } else if s == "lambda"@ {
            ListForm::Lambda
        } else if s == "let"@ {
            ListForm::Let
        } else if s == "if"@ {
            ListForm::If
        } else if s == "require-capability"@ {
            ListForm::RequireCapability
        } else if s == "has-capability?"@ {
            ListForm::HasCapability
        } else if s == "defmacro"@ {
            ListForm::MacroDefinition
        } else if s == "comptime-eval"@ {
            ListForm::ComptimeEval
        } else if s == "ffi-call"@ {
            ListForm::FfiCall
        } else {
            ListForm::CallWithSymbol
        },
        TokenView::OpenParen => ListForm::CallWithExpression,
        _ => ListForm::CallWithSymbol,
    }
}

/// Is `t` a token that stands for a single value (a name, a quoted symbol, a
/// string, a number, a boolean or nil).
pub open spec fn is_atom(t: TokenView) -> bool {
    t is Symbol || t is QuotedSymbol || t is Str || t is Number || t is Boolean || t is Nil
}

/// How a token is written in diagnostics (as `{:?}` writes it).
pub open spec fn token_debug(t: TokenView) -> Seq<char> {
    match t {
        TokenView::OpenParen => "OpenParen"@,
        TokenView::CloseParen => "CloseParen"@,
        TokenView::LeftBracket => "LeftBracket"@,
        TokenView::RightBracket => "RightBracket"@,
        TokenView::LeftBrace => "LeftBrace"@,
        TokenView::RightBrace => "RightBrace"@,
        TokenView::Dot => "Dot"@,
        TokenView::Comma => "Comma"@,
        TokenView::Semicolon => "Semicolon"@,
        TokenView::Colon => "Colon"@,
        TokenView::Quote => "Quote"@,
        TokenView::Backtick => "Backtick"@,
        TokenView::Plus => "Plus"@,
        TokenView::Minus => "Minus"@,
        TokenView::Star => "Star"@,
        TokenView::Slash => "Slash"@,
        TokenView::Percent => "Percent"@,
        TokenView::Equals => "Equals"@,
        TokenView::Bang => "Bang"@,
        TokenView::Less => "Less"@,
        TokenView::Greater => "Greater"@,
        TokenView::Ampersand => "Ampersand"@,
        TokenView::Pipe => "Pipe"@,
        TokenView::Caret => "Caret"@,
        TokenView::Question => "Question"@,
        TokenView::Symbol(s) => "Symbol("@ + debug_str_text(s) + ")"@,
        TokenView::QuotedSymbol(s) => "QuotedSymbol("@ + debug_str_text(s) + ")"@,
        TokenView::Number(s) => "Number("@ + debug_str_text(s) + ")"@,
        TokenView::Str(s) => "String("@ + debug_str_text(s) + ")"@,
        TokenView::Boolean(b) => if b {
            "Boolean(true)"@
        } else {
            "Boolean(false)"@
        },
        TokenView::Nil => "Nil"@,
        TokenView::Unknown(c) => "Unknown("@ + debug_char_text(c) + ")"@,
        TokenView::Eof => "Eof"@,
    }
}

/// Does position `r` hold a closing parenthesis: then parsing goes on after
/// it, else it fails.
pub open spec fn pclose(t: Seq<TokenView>, r: int) -> Result<int, Seq<char>> {
    if 0 <= r < t.len() && t[r] is CloseParen {
        Ok(r + 1)
    } else {
        Err("Expected closing parenthesis"@)
    }
}

/// Where the expression that starts at `p` ends, or why it cannot be parsed.
pub open spec fn pexpr(t: Seq<TokenView>, p: int) -> Result<int, Seq<char>>
    decreases t.len() - p, 1int,
{
    if p < 0 || p >= t.len() {
        Err("Unexpected end of input"@)
    } else if t[p] is OpenParen {
        plist(t, p)
    } else if is_atom(t[p]) {
        Ok(p + 1)
    } else {
        Err("Unexpected token: "@ + token_debug(t[p]))
    }
}

/// Where the list that opens at `p` ends, or why it cannot be parsed.
pub open spec fn plist(t: Seq<TokenView>, p: int) -> Result<int, Seq<char>>
    decreases t.len() - p, 0int,
{
    let q = p + 1;
    if p < 0 || q >= t.len() {
        Err("Unexpected end of list"@)
    } else {
        match list_form(t[q]) {
            ListForm::TrustTier | ListForm::ComptimeEval => match pexpr(t, q + 1) {
                Ok(r) => pclose(t, r),
                Err(m) => Err(m),
            },
            ListForm::Lambda => match pparams(t, q + 1) {
                Ok(r) => if p < r <= t.len() {
                    match pexpr(t, r) {
                        Ok(r2) => pclose(t, r2),
                        Err(m) => Err(m),
                    }
                } else {
                    Err(Seq::empty())
                },
                Err(m) => Err(m),
            },
            ListForm::Let => match pbindings(t, q + 1) {
                Ok(r) => if p < r <= t.len() {
                    match pexpr(t, r) {
                        Ok(r2) => pclose(t, r2),
                        Err(m) => Err(m),
                    }
                } else {
                    Err(Seq::empty())
                },
                Err(m) => Err(m),
            },
            ListForm::If => match pexpr(t, q + 1) {
                Ok(r1) => if p < r1 <= t.len() {
                    match pexpr(t, r1) {
                        Ok(r2) => if p < r2 <= t.len() {
                            match pexpr(t, r2) {
                                Ok(r3) => pclose(t, r3),
                                Err(m) => Err(m),
                            }
                        } else {
                            Err(Seq::empty())
                        },
                        Err(m) => Err(m),
                    }
                } else {
                    Err(Seq::empty())
                },
                Err(m) => Err(m),
            },
            ListForm::RequireCapability | ListForm::HasCapability => if q + 1 < t.len() && (
            t[q + 1] is Symbol || t[q + 1] is QuotedSymbol) {
                pclose(t, q + 2)
            } else {
                Err("Expected capability name"@)
            },
            ListForm::MacroDefinition => if q + 1 < t.len() && t[q + 1] is Symbol {
                match pparams(t, q + 2) {
                    Ok(r) => if p < r <= t.len() {
                        match pexpr(t, r) {
                            Ok(r2) => pclose(t, r2),
                            Err(m) => Err(m),
                        }
                    } else {
                        Err(Seq::empty())
                    },
                    Err(m) => Err(m),
                }
            } else {
                Err("Expected macro name"@)
            },
            ListForm::FfiCall => if q + 1 < t.len() && (t[q + 1] is Symbol || t[q + 1] is QuotedSymbol) {
                pitems(t, q + 2, false)
            } else {
                Err("Expected FFI function name"@)
            },
            ListForm::CallWithExpression => match pexpr(t, q) {
                Ok(r) => if p < r <= t.len() {
                    pitems(t, r, true)
                } else {
                    Err(Seq::empty())
                },
                Err(m) => Err(m),
            },
            ListForm::CallWithSymbol => if t[q] is Symbol {
                pitems(t, q + 1, true)
            } else {
                Err("Expected function name"@)
            },
        }
    }
}

/// Where the arguments that continue at `r` end, just after the closing
/// parenthesis; where the tokens run out first, that is an error if
/// `need_close`, and otherwise the end of the tokens.
pub open spec fn pitems(t: Seq<TokenView>, r: int, need_close: bool) -> Result<int, Seq<char>>
    decreases t.len() - r, 2int,
{
    if r < 0 || r >= t.len() {
        if need_close {
            Err("Expected closing parenthesis"@)
        } else {
            Ok(if r < 0 { 0 } else { r })
        }
    } else if t[r] is CloseParen {
        Ok(r + 1)
    } else {
        match pexpr(t, r) {
            Ok(r2) => if r < r2 <= t.len() {
                pitems(t, r2, need_close)
            } else {
                Err(Seq::empty())
            },
            Err(m) => Err(m),
        }
    }
}

/// Where the bindings list that starts at `p` ends.
pub open spec fn pbindings(t: Seq<TokenView>, p: int) -> Result<int, Seq<char>>
    decreases t.len() - p, 3int,
{
    if p < 0 || p >= t.len() {
        Err("Expected bindings"@)
    } else if t[p] is OpenParen {
        pbinds(t, p + 1)
    } else {
        Err("Expected bindings list"@)
    }
}

/// Where the bindings that continue at `r` end: just after the closing
/// parenthesis, or at the end of the tokens.
pub open spec fn pbinds(t: Seq<TokenView>, r: int) -> Result<int, Seq<char>>
    decreases t.len() - r, 3int,
{
    if r < 0 || r >= t.len() {
        Ok(if r < 0 { 0 } else { r })
    } else if t[r] is CloseParen {
        Ok(r + 1)
    } else if t[r] is OpenParen {
        if r + 1 < t.len() && t[r + 1] is Symbol {
            match pexpr(t, r + 2) {
                Ok(r2) => if r < r2 <= t.len() {
                    if r2 < t.len() && t[r2] is CloseParen {
                        pbinds(t, r2 + 1)
                    } else {
                        Err("Expected closing parenthesis"@)
                    }
                } else {
                    Err(Seq::empty())
                },
                Err(m) => Err(m),
            }
        } else {
            Err("Expected binding name"@)
        }
    } else {
        Err("Expected binding"@)
    }
}

/// Where the parameter list that starts at `p` ends: a single name, or
/// names in parentheses.
pub open spec fn pparams(t: Seq<TokenView>, p: int) -> Result<int, Seq<char>> {
    if p < 0 || p >= t.len() {
        Err("Expected parameter list"@)
    } else if t[p] is OpenParen {
        pnames(t, p + 1)
    } else if t[p] is Symbol {
        Ok(p + 1)
    } else {
        Err("Expected parameter list"@)
    }
}

/// Where the names that continue at `r` end: just after the closing
/// parenthesis, or at the end of the tokens.
pub open spec fn pnames(t: Seq<TokenView>, r: int) -> Result<int, Seq<char>>
    decreases t.len() - r,
{
    if r < 0 || r >= t.len() {
        Ok(if r < 0 { 0 } else { r })
    } else if t[r] is CloseParen {
        Ok(r + 1)
    } else if t[r] is Symbol {
        pnames(t, r + 1)
    } else {
        Err("Expected parameter name"@)
    }
}

/// The names that parameter lists may hold only as variables are the
/// multi-character ones made of letters, digits and `-?!_:`; the
/// one-character operators are symbols.
pub open spec fn single_char_operator(s: Seq<char>) -> bool {
    s == "+"@ || s == "-"@ || s == "*"@ || s == "/"@ || s == "%"@ || s == "<"@ || s == ">"@ || s
        == "="@ || s == "!"@
}

/// Can `c` occur in the name of a called variable.
pub open spec fn callee_char(c: char) -> bool {
    alphanumeric(c) || c == '-' || c == '?' || c == '!' || c == '_' || c == ':'
}

/// Is a call's head `name` a variable (rather than an operator symbol).
pub open spec fn callee_is_variable(name: Seq<char>) -> bool {
    !single_char_operator(name) && forall|k: int| 0 <= k < name.len() ==> callee_char(name[k])
}

/// The text of a name-like token.
pub open spec fn token_text(t: TokenView) -> Seq<char> {
    match t {
        TokenView::Symbol(s) => s,
        TokenView::QuotedSymbol(s) => s,
        _ => Seq::empty(),
    }
}

/// The position of the first dot in `t` at or after `i`, or its length.
pub open spec fn dot_from(t: Seq<char>, i: int) -> int
    decreases t.len() - i,
{
    if i < 0 || i >= t.len() {
        t.len() as int
    } else if t[i] == '.' {
        i
    } else {
        dot_from(t, i + 1)
    }
}

/// The position of the first dot in `t`, or its length.
pub open spec fn dot_position(t: Seq<char>) -> int {
    dot_from(t, 0)
}

/// Is the number text `t` integral: digits, at least one, then possibly a
/// dot followed by nothing but zeros.
pub open spec fn integral_text(t: Seq<char>) -> bool {
    &&& dot_position(t) > 0
    &&& forall|k: int| 0 <= k < dot_position(t) ==> is_decimal_digit(t[k])
    &&& forall|k: int| dot_position(t) < k < t.len() ==> t[k] == '0'
}

/// The power of two by which `w * m` must be divided to leave at most 53
/// significant bits, the precision of a double, starting from the unit `m`.
pub open spec fn double_unit(w: nat, m: nat) -> nat
    decreases w,
{
    if w < 0x20_0000_0000_0000 {
        m
    } else {
        double_unit(w / 2, m * 2)
    }
}

/// `v` rounded to the nearest double: to a multiple of its unit
/// (`double_unit(v, 1)`), ties going to the even multiple.
pub open spec fn nearest_double(v: nat) -> nat {
    let m = double_unit(v, 1);
    let q = v / m;
    let r = v % m;
    if 2 * r > m || (2 * r == m && q % 2 == 1) {
        (q + 1) * m
    } else {
        q * m
    }
}

/// The integer that an integral literal of value `v` denotes: a number is
/// read as a double, so `v` is rounded to the nearest double, and then
/// converted to `i64`, saturating at `i64::MAX`.
pub open spec fn integer_literal_value(v: nat) -> i64 {
    if v > i64::MAX {
        i64::MAX
    } else if nearest_double(v) > i64::MAX {
        i64::MAX
    } else {
        nearest_double(v) as i64
    }
}

/// Is `n` the literal that the number text `t` denotes: an integer where
/// `t` is integral (its value read as a double, see
/// `integer_literal_value`), and otherwise a float carried by its text.
pub open spec fn number_literal_matches(n: AstNode, t: Seq<char>) -> bool {
    if integral_text(t) {
        let v = digits_value(t.subrange(0, dot_position(t)));
        n == AstNode::Literal(Literal::Int(integer_literal_value(v)))
    } else {
        n matches AstNode::Literal(Literal::Float(x)) && x@ == t
    }
}

/// Does `n` have the shape of the expression that starts at `p`: an atom
/// gives the node it stands for, and a list the node of its special form,
/// with the names written in it.
pub open spec fn root_matches(n: AstNode, t: Seq<TokenView>, p: int) -> bool
    decreases t.len() - p,
{
    if p < 0 || p >= t.len() {
        false
    } else {
        match t[p] {
            TokenView::Symbol(s) => n matches AstNode::Variable(x) && x@ == s,
            TokenView::QuotedSymbol(s) => n matches AstNode::Symbol(x) && x@ == s,
            TokenView::Str(s) => n matches AstNode::Literal(Literal::String(x)) && x@ == s,
            TokenView::Number(s) => number_literal_matches(n, s),
            TokenView::Boolean(b) => n == AstNode::Literal(Literal::Bool(b)),
            TokenView::Nil => n == AstNode::Literal(Literal::Nil),
            TokenView::OpenParen => p + 1 < t.len() && match list_form(t[p + 1]) {
                ListForm::TrustTier => n matches AstNode::TrustTier { tier, .. } && tier@ == token_text(
                    t[p + 1],
                ),
                ListForm::Lambda => n is Lambda,
                ListForm::Let => n is Let,
                ListForm::If => n is If,
                ListForm::RequireCapability => n matches AstNode::RequireCapability {
                    capability,
                    ..
                } && capability@ == token_text(t[p + 2]),
                ListForm::HasCapability => n matches AstNode::HasCapability { capability, .. }
                    && capability@ == token_text(t[p + 2]),
                ListForm::MacroDefinition => n matches AstNode::MacroDefinition {
                    name,
                    capabilities,
                    tier,
                    ..
                } && name@ == token_text(t[p + 2]) && capabilities@.len() == 0 && tier@
                    == "formal"@,
                ListForm::ComptimeEval => root_matches(n, t, p + 2),
                ListForm::FfiCall => n matches AstNode::FfiCall { function, .. } && function@
                    == token_text(t[p + 2]),
                ListForm::CallWithExpression => n matches AstNode::Call { function, .. }
                    && root_matches(*function, t, p + 1),
                ListForm::CallWithSymbol => n matches AstNode::Call { function, .. } && (if callee_is_variable(
                    token_text(t[p + 1]),
                ) {
                    *function matches AstNode::Variable(x) && x@ == token_text(t[p + 1])
                } else {
                    *function matches AstNode::Symbol(x) && x@ == token_text(t[p + 1])
                }),
            },
            _ => false,
        }
    }
}


/// The parser of an expression from a sequence of tokens.
pub struct ExpressionParser<'a> {
    tokens: &'a [Token],
    position: usize,
}

/// Does the outcome `r`, with the parser now at `end`, agree with the
/// grammar's verdict `spec` on the expression that starts at `p`.
pub open spec fn parsed(
    spec: Result<int, Seq<char>>,
    r: Result<AstNode, CompilationError>,
    end: int,
    t: Seq<TokenView>,
    p: int,
) -> bool {
    match spec {
        Ok(e) => (r matches Ok(n) && root_matches(n, t, p)) && end == e,
        Err(m) => r matches Err(err) && is_parse_error(err, m),
    }
}

/// Does the outcome `r` agree with the grammar's verdict `spec` on the
/// expression that starts at `p`.
pub open spec fn parse_result(
    spec: Result<int, Seq<char>>,
    r: Result<AstNode, CompilationError>,
    t: Seq<TokenView>,
    p: int,
) -> bool {
    match spec {
        Ok(e) => r matches Ok(n) && root_matches(n, t, p),
        Err(m) => r matches Err(err) && is_parse_error(err, m),
    }
}

/// Does the outcome `r` of parsing a part of a form (its parameters or its
/// bindings), with the parser now at `end`, agree with the grammar's
/// verdict `spec`.
pub open spec fn parsed_part<T>(spec: Result<int, Seq<char>>, r: Result<T, CompilationError>, end: int) -> bool {
    match spec {
        Ok(e) => r is Ok && end == e,
        Err(m) => r matches Err(err) && is_parse_error(err, m),
    }
}

/// The literal a number text denotes (see `number_literal_matches`).
pub open spec fn number_view(s: Seq<char>) -> NodeView {
    if integral_text(s) {
        let v = digits_value(s.subrange(0, dot_position(s)));
        NodeView::Literal(LiteralView::Int(integer_literal_value(v)))
    } else {
        NodeView::Literal(LiteralView::Float(s))
    }
}

/// The names of a parameter list of names, from `r` on, up to a closing
/// parenthesis or the end of the tokens.
pub open spec fn names_from(t: Seq<TokenView>, r: int) -> Seq<Seq<char>>
    decreases t.len() - r,
{
    if r < 0 || r >= t.len() {
        seq![]
    } else if t[r] is Symbol {
        seq![token_text(t[r])] + names_from(t, r + 1)
    } else {
        seq![]
    }
}

/// The names of the parameter list that starts at `p`.
pub open spec fn params_of(t: Seq<TokenView>, p: int) -> Seq<Seq<char>> {
    if p < 0 || p >= t.len() {
        seq![]
    } else if t[p] is OpenParen {
        names_from(t, p + 1)
    } else if t[p] is Symbol {
        seq![token_text(t[p])]
    } else {
        seq![]
    }
}

/// The tree of the expression that starts at `p` (where `pexpr` accepts
/// it): a name is a variable, a quoted name a symbol, the other atoms their
/// literals, and a list the tree of its form.
pub open spec fn tree_of(t: Seq<TokenView>, p: int) -> NodeView
    decreases t.len() - p, 1int,
{
    if p < 0 || p >= t.len() {
        NodeView::Literal(LiteralView::Nil)
    } else {
        match t[p] {
            TokenView::OpenParen => list_tree(t, p),
            TokenView::Symbol(s) => NodeView::Variable(s),
            TokenView::QuotedSymbol(s) => NodeView::Symbol(s),
            TokenView::Str(s) => NodeView::Literal(LiteralView::Str(s)),
            TokenView::Number(s) => number_view(s),
            TokenView::Boolean(b) => NodeView::Literal(LiteralView::Bool(b)),
            _ => NodeView::Literal(LiteralView::Nil),
        }
    }
}

/// The tree of the list that opens at `p`, by its form; every node is at
/// the unknown location.
pub open spec fn list_tree(t: Seq<TokenView>, p: int) -> NodeView
    decreases t.len() - p, 0int,
{
    let q = p + 1;
    let loc = unknown_location();
    if p < 0 || q >= t.len() {
        NodeView::Literal(LiteralView::Nil)
    } else {
        match list_form(t[q]) {
            ListForm::TrustTier => NodeView::TrustTier {
                tier: token_text(t[q]),
                expression: Box::new(tree_of(t, q + 1)),
                location: loc,
            },
            ListForm::ComptimeEval => tree_of(t, q + 1),
            ListForm::Lambda => match pparams(t, q + 1) {
                Ok(r) => if p < r <= t.len() {
                    NodeView::Lambda {
                        parameters: params_of(t, q + 1),
                        body: Box::new(tree_of(t, r)),
                        location: loc,
                    }
                } else {
                    NodeView::Literal(LiteralView::Nil)
                },
                Err(_) => NodeView::Literal(LiteralView::Nil),
            },
            ListForm::Let => match pbindings(t, q + 1) {
                Ok(r) => if p < r <= t.len() {
                    NodeView::Let {
                        bindings: binds_of(t, q + 1),
                        body: Box::new(tree_of(t, r)),
                        location: loc,
                    }
                } else {
                    NodeView::Literal(LiteralView::Nil)
                },
                Err(_) => NodeView::Literal(LiteralView::Nil),
            },
            ListForm::If => match pexpr(t, q + 1) {
                Ok(r1) => if p < r1 <= t.len() {
                    match pexpr(t, r1) {
                        Ok(r2) => if p < r2 <= t.len() {
                            NodeView::If {
                                condition: Box::new(tree_of(t, q + 1)),
                                then_branch: Box::new(tree_of(t, r1)),
                                else_branch: Box::new(tree_of(t, r2)),
                                location: loc,
                            }
                        } else {
                            NodeView::Literal(LiteralView::Nil)
                        },
                        Err(_) => NodeView::Literal(LiteralView::Nil),
                    }
                } else {
                    NodeView::Literal(LiteralView::Nil)
                },
                Err(_) => NodeView::Literal(LiteralView::Nil),
            },
            ListForm::RequireCapability => NodeView::RequireCapability {
                capability: token_text(t[q + 1]),
                location: loc,
            },
            ListForm::HasCapability => NodeView::HasCapability {
                capability: token_text(t[q + 1]),
                location: loc,
            },
            ListForm::MacroDefinition => match pparams(t, q + 2) {
                Ok(r) => if p < r <= t.len() {
                    NodeView::MacroDefinition {
                        name: token_text(t[q + 1]),
                        parameters: params_of(t, q + 2),
                        body: Box::new(tree_of(t, r)),
                        capabilities: seq![],
                        tier: "formal"@,
                        location: loc,
                    }
                } else {
                    NodeView::Literal(LiteralView::Nil)
                },
                Err(_) => NodeView::Literal(LiteralView::Nil),
            },
            ListForm::FfiCall => NodeView::FfiCall {
                function: token_text(t[q + 1]),
                arguments: if q + 2 <= t.len() {
                    items_of(t, q + 2)
                } else {
                    seq![]
                },
                location: loc,
            },
            ListForm::CallWithExpression => match pexpr(t, q) {
                Ok(r) => if p < r <= t.len() {
                    NodeView::Call {
                        function: Box::new(tree_of(t, q)),
                        arguments: items_of(t, r),
                        location: loc,
                    }
                } else {
                    NodeView::Literal(LiteralView::Nil)
                },
                Err(_) => NodeView::Literal(LiteralView::Nil),
            },
            ListForm::CallWithSymbol => NodeView::Call {
                function: Box::new(
                    if callee_is_variable(token_text(t[q])) {
                        NodeView::Variable(token_text(t[q]))
                    } else {
                        NodeView::Symbol(token_text(t[q]))
                    },
                ),
                arguments: items_of(t, q + 1),
                location: loc,
            },
        }
    }
}

/// The trees of the arguments from `r` on, up to a closing parenthesis or
/// the end of the tokens.
pub open spec fn items_of(t: Seq<TokenView>, r: int) -> Seq<NodeView>
    decreases t.len() - r, 2int,
{
    if r < 0 || r >= t.len() || t[r] is CloseParen {
        seq![]
    } else {
        match pexpr(t, r) {
            Ok(r2) => if r < r2 <= t.len() {
                seq![tree_of(t, r)] + items_of(t, r2)
            } else {
                seq![]
            },
            Err(_) => seq![],
        }
    }
}

/// The bindings of the bindings list that starts at `p`.
pub open spec fn binds_of(t: Seq<TokenView>, p: int) -> Seq<(Seq<char>, NodeView)>
    decreases t.len() - p, 4int,
{
    if p < 0 || p >= t.len() {
        seq![]
    } else if t[p] is OpenParen {
        binds_from(t, p + 1)
    } else {
        seq![]
    }
}

/// The bindings from `r` on, up to a closing parenthesis or the end of the
/// tokens: each `(name value)` with the value's tree.
pub open spec fn binds_from(t: Seq<TokenView>, r: int) -> Seq<(Seq<char>, NodeView)>
    decreases t.len() - r, 3int,
{
    if r < 0 || r >= t.len() || t[r] is CloseParen {
        seq![]
    } else if t[r] is OpenParen && r + 1 < t.len() && t[r + 1] is Symbol {
        match pexpr(t, r + 2) {
            Ok(r2) => if r < r2 < t.len() && t[r2] is CloseParen {
                seq![(token_text(t[r + 1]), tree_of(t, r + 2))] + binds_from(t, r2 + 1)
            } else {
                seq![]
            },
            Err(_) => seq![],
        }
    } else {
        seq![]
    }
}

/// When `r` is `Ok`, it holds a tree whose view is `v`.
pub open spec fn built(r: Result<AstNode, CompilationError>, v: NodeView) -> bool {
    r matches Ok(n) ==> node_view(n) == v
}

fn parse_error(message: &str) -> (r: CompilationError)
    ensures
        is_parse_error(r, message@),
{
    CompilationError::ParseError { message: to_owned_string(message), location: default_location() }
}

impl<'a> ExpressionParser<'a> {
    /// The tokens, as values.
    pub closed spec fn toks(&self) -> Seq<TokenView> {
        token_views(self.tokens@)
    }

    /// The position of the next token.
    pub closed spec fn pos(&self) -> int {
        self.position as int
    }

    /// A parser at the first of `tokens`.
    pub fn new(tokens: &'a [Token]) -> (r: Self)
        ensures
            r.toks() == token_views(tokens@),
            r.pos() == 0,
    {
        Self { tokens, position: 0 }
    }

    /// The next token, if any is left.
    fn current_token(&self) -> (r: Option<&Token>)
        ensures
            self.position < self.tokens@.len() ==> r == Some(&self.tokens@[self.position as int]),
            self.position >= self.tokens@.len() ==> r is None,
    {
        if self.position < self.tokens.len() {
            Some(&self.tokens[self.position])
        } else {
            None
        }
    }

    /// Are the tokens used up.
    fn is_at_end(&self) -> (r: bool)
        ensures
            r == (self.position >= self.tokens@.len()),
    {
        self.position >= self.tokens.len()
    }

    /// Parses the expression that starts at the current token: an atom, or a
    /// list up to its closing parenthesis.
    pub fn parse(&mut self) -> (r: Result<AstNode, CompilationError>)
        requires
            old(self).pos() <= old(self).toks().len(),
        ensures
            final(self).toks() == old(self).toks(),
            final(self).pos() <= final(self).toks().len(),
            parsed(pexpr(old(self).toks(), old(self).pos()), r, final(self).pos(), old(self).toks(), old(self).pos()),
            built(r, tree_of(old(self).toks(), old(self).pos())),
        decreases old(self).toks().len() - old(self).pos(), 1int,
    {
        let ghost t = self.toks();
        let ghost p = self.pos();
        if self.is_at_end() {
            return Err(parse_error("Unexpected end of input"));
        }
        let toks: &'a [Token] = self.tokens;
        let tok: &'a Token = &toks[self.position];
        assert(t[p] == tok@);
        match tok {
            Token::OpenParen => self.parse_list(),
            Token::Symbol(s) => {
                let n = self.parse_variable(s.as_str());
                self.advance();
                n
            },
            Token::QuotedSymbol(s) => {
                let n = self.parse_symbol(s.as_str());
                self.advance();
                n
            },
            Token::String(s) => {
                let n = self.parse_string(s.as_str());
                self.advance();
                n
            },
            Token::Number(s) => {
                let n = self.parse_number_text(s.as_str());
                self.advance();
                n
            },
            Token::Boolean(b) => {
                let n = self.parse_boolean(*b);
                self.advance();
                n
            },
            Token::Nil => {
                let n = self.parse_nil();
                self.advance();
                n
            },
            _ => {
                let mut m = String::from_str("Unexpected token: ");
                let d = token_debug_string(tok);
                m.append(d.as_str());
                Err(CompilationError::ParseError { message: m, location: default_location() })
            },
        }
    }

    /// Parses a list, from its opening parenthesis, by the special form its
    /// head names.
    fn parse_list(&mut self) -> (r: Result<AstNode, CompilationError>)
        requires
            old(self).pos() < old(self).toks().len(),
            old(self).toks()[old(self).pos()] is OpenParen,
        ensures
            final(self).toks() == old(self).toks(),
            final(self).pos() <= final(self).toks().len(),
            parsed(plist(old(self).toks(), old(self).pos()), r, final(self).pos(), old(self).toks(), old(self).pos()),
            built(r, list_tree(old(self).toks(), old(self).pos())),
        decreases old(self).toks().len() - old(self).pos(), 0int,
    {
        self.advance();
        if self.is_at_end() {
            return Err(parse_error("Unexpected end of list"));
        }
        let toks: &'a [Token] = self.tokens;
        let head: &'a Token = &toks[self.position];
        assert(self.toks()[self.pos()] == head@);
        match list_form_of(head) {
            ListForm::TrustTier => self.parse_trust_tier(),
            ListForm::Lambda => self.parse_lambda(),
            ListForm::Let => self.parse_let(),
            ListForm::If => self.parse_if(),
            ListForm::RequireCapability => self.parse_require_capability(),
            ListForm::HasCapability => self.parse_has_capability(),
            ListForm::MacroDefinition => self.parse_macro_definition(),
            ListForm::ComptimeEval => self.parse_comptime_eval(),
            ListForm::FfiCall => self.parse_ffi_call(),
            ListForm::CallWithExpression => self.parse_function_call_with_expression(),
            ListForm::CallWithSymbol => self.parse_function_call_with_symbol(),
        }
    }

    /// Expects a closing parenthesis and moves past it.
    fn expect_close(&mut self) -> (r: Result<(), CompilationError>)
        requires
            old(self).pos() <= old(self).toks().len(),
        ensures
            final(self).toks() == old(self).toks(),
            final(self).pos() <= final(self).toks().len(),
            parsed_part(pclose(old(self).toks(), old(self).pos()), r, final(self).pos()),
    {
        match self.current_token() {
            Some(Token::CloseParen) => {
                self.advance();
                Ok(())
            },
            _ => Err(parse_error("Expected closing parenthesis")),
        }
    }

    /// `(:tier e)`: a trust tier annotation.
    fn parse_trust_tier(&mut self) -> (r: Result<AstNode, CompilationError>)
        requires
            1 <= old(self).pos() < old(self).toks().len(),
            old(self).toks()[old(self).pos() - 1] is OpenParen,
            list_form(old(self).toks()[old(self).pos()]) == ListForm::TrustTier,
        ensures
            final(self).toks() == old(self).toks(),
            final(self).pos() <= final(self).toks().len(),
            parsed(plist(old(self).toks(), old(self).pos() - 1), r, final(self).pos(), old(self).toks(), old(self).pos() - 1),
            built(r, list_tree(old(self).toks(), old(self).pos() - 1)),
        decreases old(self).toks().len() - old(self).pos(), 0int,
    {
        let ghost t = self.toks();
        let toks: &'a [Token] = self.tokens;
        let tier = match &toks[self.position] {
            Token::Symbol(s) => to_owned_string(s.as_str()),
            _ => {
                return Err(parse_error("Expected trust tier"));
            },
        };
        self.advance();
        let expression = match self.parse() {
            Ok(e) => e,
            Err(e) => {
                return Err(e);
            },
        };
        match self.expect_close() {
            Ok(()) => {},
            Err(e) => {
                return Err(e);
            },
        }
        Ok(AstNode::TrustTier { tier, expression: Box::new(expression), location: default_location() })
    }

    /// `(lambda params body)`.
    fn parse_lambda(&mut self) -> (r: Result<AstNode, CompilationError>)
        requires
            1 <= old(self).pos() < old(self).toks().len(),
            old(self).toks()[old(self).pos() - 1] is OpenParen,
            list_form(old(self).toks()[old(self).pos()]) == ListForm::Lambda,
        ensures
            final(self).toks() == old(self).toks(),
            final(self).pos() <= final(self).toks().len(),
            parsed(plist(old(self).toks(), old(self).pos() - 1), r, final(self).pos(), old(self).toks(), old(self).pos() - 1),
            built(r, list_tree(old(self).toks(), old(self).pos() - 1)),
        decreases old(self).toks().len() - old(self).pos(), 0int,
    {
        self.advance();
        let parameters = match self.parse_parameter_list() {
            Ok(ps) => ps,
            Err(e) => {
                return Err(e);
            },
        };
        let body = match self.parse() {
            Ok(b) => b,
            Err(e) => {
                return Err(e);
            },
        };
        match self.expect_close() {
            Ok(()) => {},
            Err(e) => {
                return Err(e);
            },
        }
        Ok(AstNode::Lambda { parameters, body: Box::new(body), location: default_location() })
    }

    /// A parameter list: one name, or names in parentheses (the closing
    /// parenthesis may be missing at the end of the tokens).
    fn parse_parameter_list(&mut self) -> (r: Result<Vec<String>, CompilationError>)
        requires
            old(self).pos() <= old(self).toks().len(),
        ensures
            final(self).toks() == old(self).toks(),
            final(self).pos() <= final(self).toks().len(),
            parsed_part(pparams(old(self).toks(), old(self).pos()), r, final(self).pos()),
            r matches Ok(_) ==> old(self).pos() < final(self).pos(),
            r matches Ok(ps) ==> strings_view(ps) == params_of(old(self).toks(), old(self).pos()),
    {
        let ghost t = self.toks();
        proof {
            lemma_pparams_bounds(t, self.pos());
        }
        if self.is_at_end() {
            return Err(parse_error("Expected parameter list"));
        }
        let toks: &'a [Token] = self.tokens;
        match &toks[self.position] {
            Token::OpenParen => {
                self.advance();
                let mut parameters: Vec<String> = Vec::new();
                assert(strings_view(parameters) + names_from(t, self.pos()) =~= params_of(t, old(self).pos()));
                while !self.is_at_end()
                    invariant
                        self.toks() == t,
                        t == old(self).toks(),
                        self.tokens@ == toks@,
                        old(self).pos() < self.pos() <= t.len(),
                        pparams(t, old(self).pos()) == pnames(t, self.pos()),
                        strings_view(parameters) + names_from(t, self.pos()) == params_of(t, old(self).pos()),
                    decreases t.len() - self.pos(),
                {
                    let tok: &'a Token = &toks[self.position];
                    assert(t[self.pos()] == tok@);
                    match tok {
                        Token::CloseParen => {
                            self.advance();
                            assert(strings_view(parameters) =~= strings_view(parameters) + names_from(t, self.pos() - 1));
                            return Ok(parameters);
                        },
                        Token::Symbol(s) => {
                            let ghost before = strings_view(parameters);
                            let ghost r0 = self.pos();
                            parameters.push(to_owned_string(s.as_str()));
                            self.advance();
                            assert(strings_view(parameters) =~= before.push(s@));
                            assert(strings_view(parameters) + names_from(t, self.pos()) =~= before + names_from(t, r0));
                        },
                        _ => {
                            return Err(parse_error("Expected parameter name"));
                        },
                    }
                }
                assert(strings_view(parameters) =~= strings_view(parameters) + names_from(t, self.pos()));
                Ok(parameters)
            },
            Token::Symbol(s) => {
                let param = to_owned_string(s.as_str());
                self.advance();
                let v = vec![param];
                assert(strings_view(v) =~= params_of(t, old(self).pos()));
                Ok(v)
            },
            _ => Err(parse_error("Expected parameter list")),
        }
    }

    /// `(let ((name value)...) body)`.
    fn parse_let(&mut self) -> (r: Result<AstNode, CompilationError>)
        requires
            1 <= old(self).pos() < old(self).toks().len(),
            old(self).toks()[old(self).pos() - 1] is OpenParen,
            list_form(old(self).toks()[old(self).pos()]) == ListForm::Let,
        ensures
            final(self).toks() == old(self).toks(),
            final(self).pos() <= final(self).toks().len(),
            parsed(plist(old(self).toks(), old(self).pos() - 1), r, final(self).pos(), old(self).toks(), old(self).pos() - 1),
            built(r, list_tree(old(self).toks(), old(self).pos() - 1)),
        decreases old(self).toks().len() - old(self).pos(), 0int,
    {
        self.advance();
        let bindings = match self.parse_bindings() {
            Ok(bs) => bs,
            Err(e) => {
                return Err(e);
            },
        };
        let body = match self.parse() {
            Ok(b) => b,
            Err(e) => {
                return Err(e);
            },
        };
        match self.expect_close() {
            Ok(()) => {},
            Err(e) => {
                return Err(e);
            },
        }
        Ok(AstNode::Let { bindings, body: Box::new(body), location: default_location() })
    }

    /// A bindings list `((name value)...)` (the closing parenthesis may be
    /// missing at the end of the tokens).
    fn parse_bindings(&mut self) -> (r: Result<Vec<(String, AstNode)>, CompilationError>)
        requires
            old(self).pos() <= old(self).toks().len(),
        ensures
            final(self).toks() == old(self).toks(),
            final(self).pos() <= final(self).toks().len(),
            parsed_part(pbindings(old(self).toks(), old(self).pos()), r, final(self).pos()),
            r matches Ok(_) ==> old(self).pos() < final(self).pos(),
            r matches Ok(bs) ==> bindings_view(bs, bs@.len() as int) == binds_of(old(self).toks(), old(self).pos()),
        decreases old(self).toks().len() - old(self).pos(), 3int,
    {
        let ghost t = self.toks();
        proof {
            lemma_pbindings_bounds(t, self.pos());
        }
        if self.is_at_end() {
            return Err(parse_error("Expected bindings"));
        }
        let toks: &'a [Token] = self.tokens;
        match &toks[self.position] {
            Token::OpenParen => {
                self.advance();
                let mut bindings: Vec<(String, AstNode)> = Vec::new();
                let ghost mut done: Seq<(Seq<char>, NodeView)> = seq![];
                assert(done + binds_from(t, self.pos()) =~= binds_of(t, old(self).pos()));
                while !self.is_at_end()
                    invariant
                        self.toks() == t,
                        t == old(self).toks(),
                        old(self).pos() < self.pos() <= t.len(),
                        pbindings(t, old(self).pos()) == pbinds(t, self.pos()),
                        bindings@.len() == done.len(),
                        forall|j: int|
                            0 <= j < done.len() ==> (#[trigger] bindings@[j]).0@ == done[j].0 && node_view(
                                bindings@[j].1,
                            ) == done[j].1,
                        done + binds_from(t, self.pos()) == binds_of(t, old(self).pos()),
                    decreases t.len() - self.pos(),
                {
                    let ghost r0 = self.pos();
                    let current: &'a [Token] = self.tokens;
                    let tok: &'a Token = &current[self.position];
                    assert(t[r0] == tok@);
                    match tok {
                        Token::CloseParen => {
                            self.advance();
                            proof {
                                lemma_bindings_view(bindings, bindings@.len() as int);
                                assert(done + binds_from(t, r0) =~= done);
                                assert(bindings_view(bindings, bindings@.len() as int) =~= done);
                            }
                            return Ok(bindings);
                        },
                        Token::OpenParen => {
                            self.advance();
                            let ghost name_tok = self.toks()[self.pos()];
                            let name = match self.current_token() {
                                Some(Token::Symbol(s)) => to_owned_string(s.as_str()),
                                _ => {
                                    return Err(parse_error("Expected binding name"));
                                },
                            };
                            self.advance();
                            proof {
                                lemma_pexpr_bounds(t, r0 + 2);
                            }
                            let value = match self.parse() {
                                Ok(v) => v,
                                Err(e) => {
                                    return Err(e);
                                },
                            };
                            let ghost r2 = self.pos();
                            let ghost entry = (name@, node_view(value));
                            bindings.push((name, value));
                            match self.current_token() {
                                Some(Token::CloseParen) => {
                                    self.advance();
                                    proof {
                                        assert(binds_from(t, r0) == seq![entry] + binds_from(t, r2 + 1));
                                        assert(done.push(entry) + binds_from(t, r2 + 1) =~= done + binds_from(t, r0));
                                        done = done.push(entry);
                                    }
                                },
                                _ => {
                                    return Err(parse_error("Expected closing parenthesis"));
                                },
                            }
                        },
                        _ => {
                            return Err(parse_error("Expected binding"));
                        },
                    }
                }
                proof {
                    lemma_bindings_view(bindings, bindings@.len() as int);
                    assert(done + binds_from(t, self.pos()) =~= done);
                    assert(bindings_view(bindings, bindings@.len() as int) =~= done);
                }
                Ok(bindings)
            },
            _ => Err(parse_error("Expected bindings list")),
        }
    }

    /// `(if condition then else)`.
    fn parse_if(&mut self) -> (r: Result<AstNode, CompilationError>)
        requires
            1 <= old(self).pos() < old(self).toks().len(),
            old(self).toks()[old(self).pos() - 1] is OpenParen,
            list_form(old(self).toks()[old(self).pos()]) == ListForm::If,
        ensures
            final(self).toks() == old(self).toks(),
            final(self).pos() <= final(self).toks().len(),
            parsed(plist(old(self).toks(), old(self).pos() - 1), r, final(self).pos(), old(self).toks(), old(self).pos() - 1),
            built(r, list_tree(old(self).toks(), old(self).pos() - 1)),
        decreases old(self).toks().len() - old(self).pos(), 0int,
    {
        let ghost t = self.toks();
        let ghost q = self.pos();
        self.advance();
        proof {
            lemma_pexpr_bounds(t, q + 1);
        }
        let condition = match self.parse() {
            Ok(c) => c,
            Err(e) => {
                return Err(e);
            },
        };
        proof {
            lemma_pexpr_bounds(t, self.pos());
        }
        let then_branch = match self.parse() {
            Ok(c) => c,
            Err(e) => {
                return Err(e);
            },
        };
        proof {
            lemma_pexpr_bounds(t, self.pos());
        }
        let else_branch = match self.parse() {
            Ok(c) => c,
            Err(e) => {
                return Err(e);
            },
        };
        match self.expect_close() {
            Ok(()) => {},
            Err(e) => {
                return Err(e);
            },
        }
        Ok(
            AstNode::If {
                condition: Box::new(condition),
                then_branch: Box::new(then_branch),
                else_branch: Box::new(else_branch),
                location: default_location(),
            },
        )
    }

    /// The capability named after a head: a symbol or a quoted symbol.
    fn parse_capability_name(&mut self) -> (r: Result<String, CompilationError>)
        requires
            old(self).pos() <= old(self).toks().len(),
        ensures
            final(self).toks() == old(self).toks(),
            final(self).pos() <= final(self).toks().len(),
            ({
                let t = old(self).toks();
                let p = old(self).pos();
                if p < t.len() && (t[p] is Symbol || t[p] is QuotedSymbol) {
                    (r matches Ok(x) && x@ == token_text(t[p])) && final(self).pos() == p + 1
                } else {
                    r matches Err(err) && is_parse_error(err, "Expected capability name"@)
                }
            }),
    {
        let name = match self.current_token() {
            Some(Token::Symbol(s)) => to_owned_string(s.as_str()),
            Some(Token::QuotedSymbol(s)) => to_owned_string(s.as_str()),
            _ => {
                return Err(parse_error("Expected capability name"));
            },
        };
        self.advance();
        Ok(name)
    }

    /// `(require-capability c)`.
    fn parse_require_capability(&mut self) -> (r: Result<AstNode, CompilationError>)
        requires
            1 <= old(self).pos() < old(self).toks().len(),
            old(self).toks()[old(self).pos() - 1] is OpenParen,
            list_form(old(self).toks()[old(self).pos()]) == ListForm::RequireCapability,
        ensures
            final(self).toks() == old(self).toks(),
            final(self).pos() <= final(self).toks().len(),
            parsed(plist(old(self).toks(), old(self).pos() - 1), r, final(self).pos(), old(self).toks(), old(self).pos() - 1),
            built(r, list_tree(old(self).toks(), old(self).pos() - 1)),
    {
        self.advance();
        let capability = match self.parse_capability_name() {
            Ok(c) => c,
            Err(e) => {
                return Err(e);
            },
        };
        match self.expect_close() {
            Ok(()) => {},
            Err(e) => {
                return Err(e);
            },
        }
        Ok(AstNode::RequireCapability { capability, location: default_location() })
    }

    /// `(has-capability? c)`.
    fn parse_has_capability(&mut self) -> (r: Result<AstNode, CompilationError>)
        requires
            1 <= old(self).pos() < old(self).toks().len(),
            old(self).toks()[old(self).pos() - 1] is OpenParen,
            list_form(old(self).toks()[old(self).pos()]) == ListForm::HasCapability,
        ensures
            final(self).toks() == old(self).toks(),
            final(self).pos() <= final(self).toks().len(),
            parsed(plist(old(self).toks(), old(self).pos() - 1), r, final(self).pos(), old(self).toks(), old(self).pos() - 1),
            built(r, list_tree(old(self).toks(), old(self).pos() - 1)),
    {
        self.advance();
        let capability = match self.parse_capability_name() {
            Ok(c) => c,
            Err(e) => {
                return Err(e);
            },
        };
        match self.expect_close() {
            Ok(()) => {},
            Err(e) => {
                return Err(e);
            },
        }
        Ok(AstNode::HasCapability { capability, location: default_location() })
    }

    /// `(defmacro name params body)`: a macro of the formal tier that needs
    /// no capability.
    fn parse_macro_definition(&mut self) -> (r: Result<AstNode, CompilationError>)
        requires
            1 <= old(self).pos() < old(self).toks().len(),
            old(self).toks()[old(self).pos() - 1] is OpenParen,
            list_form(old(self).toks()[old(self).pos()]) == ListForm::MacroDefinition,
        ensures
            final(self).toks() == old(self).toks(),
            final(self).pos() <= final(self).toks().len(),
            parsed(plist(old(self).toks(), old(self).pos() - 1), r, final(self).pos(), old(self).toks(), old(self).pos() - 1),
            built(r, list_tree(old(self).toks(), old(self).pos() - 1)),
        decreases old(self).toks().len() - old(self).pos(), 0int,
    {
        let ghost t = self.toks();
        let ghost q = self.pos();
        self.advance();
        let name = match self.current_token() {
            Some(Token::Symbol(s)) => to_owned_string(s.as_str()),
            _ => {
                return Err(parse_error("Expected macro name"));
            },
        };
        assert(name@ == token_text(t[q + 1]));
        self.advance();
        let parameters = match self.parse_parameter_list() {
            Ok(ps) => ps,
            Err(e) => {
                return Err(e);
            },
        };
        let body = match self.parse() {
            Ok(b) => b,
            Err(e) => {
                return Err(e);
            },
        };
        match self.expect_close() {
            Ok(()) => {},
            Err(e) => {
                return Err(e);
            },
        }
        let capabilities: Vec<String> = Vec::new();
        assert(strings_view(capabilities) =~= Seq::<Seq<char>>::empty());
        Ok(
            AstNode::MacroDefinition {
                name,
                parameters,
                body: Box::new(body),
                capabilities,
                tier: String::from_str("formal"),
                location: default_location(),
            },
        )
    }

    /// `(comptime-eval e)`: the expression itself.
    fn parse_comptime_eval(&mut self) -> (r: Result<AstNode, CompilationError>)
        requires
            1 <= old(self).pos() < old(self).toks().len(),
            old(self).toks()[old(self).pos() - 1] is OpenParen,
            list_form(old(self).toks()[old(self).pos()]) == ListForm::ComptimeEval,
        ensures
            final(self).toks() == old(self).toks(),
            final(self).pos() <= final(self).toks().len(),
            parsed(plist(old(self).toks(), old(self).pos() - 1), r, final(self).pos(), old(self).toks(), old(self).pos() - 1),
            built(r, list_tree(old(self).toks(), old(self).pos() - 1)),
        decreases old(self).toks().len() - old(self).pos(), 0int,
    {
        self.advance();
        let expression = match self.parse() {
            Ok(e) => e,
            Err(e) => {
                return Err(e);
            },
        };
        match self.expect_close() {
            Ok(()) => {},
            Err(e) => {
                return Err(e);
            },
        }
        Ok(expression)
    }

    /// Arguments up to a closing parenthesis; where the tokens run out
    /// first, that is an error if `need_close`.
    fn parse_items(&mut self, need_close: bool) -> (r: Result<Vec<AstNode>, CompilationError>)
        requires
            old(self).pos() <= old(self).toks().len(),
        ensures
            final(self).toks() == old(self).toks(),
            final(self).pos() <= final(self).toks().len(),
            parsed_part(pitems(old(self).toks(), old(self).pos(), need_close), r, final(self).pos()),
            r matches Ok(v) ==> all_nodes_view(v) == items_of(old(self).toks(), old(self).pos()),
        decreases old(self).toks().len() - old(self).pos(), 2int,
    {
        let ghost t = self.toks();
        let ghost mut done: Seq<NodeView> = seq![];
        let mut arguments: Vec<AstNode> = Vec::new();
        while !self.is_at_end()
            invariant
                self.toks() == t,
                t == old(self).toks(),
                old(self).pos() <= self.pos() <= t.len(),
                pitems(t, old(self).pos(), need_close) == pitems(t, self.pos(), need_close),
                arguments@.len() == done.len(),
                forall|j: int| 0 <= j < done.len() ==> node_view(#[trigger] arguments@[j]) == done[j],
                done + items_of(t, self.pos()) == items_of(t, old(self).pos()),
            decreases t.len() - self.pos(),
        {
            let ghost r0 = self.pos();
            match self.current_token() {
                Some(Token::CloseParen) => {
                    self.advance();
                    proof {
                        lemma_nodes_view(arguments, arguments@.len() as int);
                        assert(done + items_of(t, r0) =~= done);
                        assert(all_nodes_view(arguments) =~= done);
                    }
                    return Ok(arguments);
                },
                _ => {
                    proof {
                        lemma_pexpr_bounds(t, r0);
                    }
                    let arg = match self.parse() {
                        Ok(a) => a,
                        Err(e) => {
                            return Err(e);
                        },
                    };
                    proof {
                        assert(items_of(t, r0) == seq![tree_of(t, r0)] + items_of(t, self.pos()));
                        assert(done.push(node_view(arg)) + items_of(t, self.pos()) =~= done + items_of(t, r0));
                        done = done.push(node_view(arg));
                    }
                    arguments.push(arg);
                },
            }
        }
        proof {
            lemma_nodes_view(arguments, arguments@.len() as int);
            assert(done + items_of(t, self.pos()) =~= done);
            assert(all_nodes_view(arguments) =~= done);
        }
        if need_close {
            Err(parse_error("Expected closing parenthesis"))
        } else {
            Ok(arguments)
        }
    }

    /// `(ffi-call name args...)` (the closing parenthesis may be missing at
    /// the end of the tokens).
    fn parse_ffi_call(&mut self) -> (r: Result<AstNode, CompilationError>)
        requires
            1 <= old(self).pos() < old(self).toks().len(),
            old(self).toks()[old(self).pos() - 1] is OpenParen,
            list_form(old(self).toks()[old(self).pos()]) == ListForm::FfiCall,
        ensures
            final(self).toks() == old(self).toks(),
            final(self).pos() <= final(self).toks().len(),
            parsed(plist(old(self).toks(), old(self).pos() - 1), r, final(self).pos(), old(self).toks(), old(self).pos() - 1),
            built(r, list_tree(old(self).toks(), old(self).pos() - 1)),
        decreases old(self).toks().len() - old(self).pos(), 0int,
    {
        self.advance();
        let function = match self.current_token() {
            Some(Token::Symbol(s)) => to_owned_string(s.as_str()),
            Some(Token::QuotedSymbol(s)) => to_owned_string(s.as_str()),
            _ => {
                return Err(parse_error("Expected FFI function name"));
            },
        };
        self.advance();
        let arguments = match self.parse_items(false) {
            Ok(a) => a,
            Err(e) => {
                return Err(e);
            },
        };
        Ok(AstNode::FfiCall { function, arguments, location: default_location() })
    }

    /// `(f args...)` with `f` a name: an operator symbol for the
    /// one-character operators and for names with other characters than
    /// letters, digits and `-?!_:`, a variable otherwise.
    fn parse_function_call_with_symbol(&mut self) -> (r: Result<AstNode, CompilationError>)
        requires
            1 <= old(self).pos() < old(self).toks().len(),
            old(self).toks()[old(self).pos() - 1] is OpenParen,
            list_form(old(self).toks()[old(self).pos()]) == ListForm::CallWithSymbol,
        ensures
            final(self).toks() == old(self).toks(),
            final(self).pos() <= final(self).toks().len(),
            parsed(plist(old(self).toks(), old(self).pos() - 1), r, final(self).pos(), old(self).toks(), old(self).pos() - 1),
            built(r, list_tree(old(self).toks(), old(self).pos() - 1)),
        decreases old(self).toks().len() - old(self).pos(), 0int,
    {
        let ghost t = self.toks();
        let toks: &'a [Token] = self.tokens;
        assert(t[self.pos()] == toks@[self.pos()]@);
        let function_name = match &toks[self.position] {
            Token::Symbol(s) => to_owned_string(s.as_str()),
            _ => {
                return Err(parse_error("Expected function name"));
            },
        };
        self.advance();
        let arguments = match self.parse_items(true) {
            Ok(a) => a,
            Err(e) => {
                return Err(e);
            },
        };
        let function = if is_callee_variable(function_name.as_str()) {
            AstNode::Variable(function_name)
        } else {
            AstNode::Symbol(function_name)
        };
        let ghost head = token_text(t[old(self).pos()]);
        assert(node_view(function) == (if callee_is_variable(head) {
            NodeView::Variable(head)
        } else {
            NodeView::Symbol(head)
        }));
        assert(all_nodes_view(arguments) == items_of(t, old(self).pos() + 1));
        Ok(AstNode::Call { function: Box::new(function), arguments, location: default_location() })
    }

    /// `((...) args...)`: a call of a computed function.
    fn parse_function_call_with_expression(&mut self) -> (r: Result<AstNode, CompilationError>)
        requires
            1 <= old(self).pos() < old(self).toks().len(),
            old(self).toks()[old(self).pos() - 1] is OpenParen,
            list_form(old(self).toks()[old(self).pos()]) == ListForm::CallWithExpression,
        ensures
            final(self).toks() == old(self).toks(),
            final(self).pos() <= final(self).toks().len(),
            parsed(plist(old(self).toks(), old(self).pos() - 1), r, final(self).pos(), old(self).toks(), old(self).pos() - 1),
            built(r, list_tree(old(self).toks(), old(self).pos() - 1)),
        decreases old(self).toks().len() - old(self).pos(), 2int,
    {
        let ghost t = self.toks();
        let ghost q = self.pos();
        proof {
            lemma_pexpr_bounds(t, q);
        }
        let function = match self.parse() {
            Ok(f) => f,
            Err(e) => {
                return Err(e);
            },
        };
        let arguments = match self.parse_items(true) {
            Ok(a) => a,
            Err(e) => {
                return Err(e);
            },
        };
        Ok(AstNode::Call { function: Box::new(function), arguments, location: default_location() })
    }

    /// The variable `name`.
    fn parse_variable(&self, name: &str) -> (r: Result<AstNode, CompilationError>)
        ensures
            r matches Ok(AstNode::Variable(x)) && x@ == name@,
    {
        Ok(AstNode::Variable(to_owned_string(name)))
    }

    /// The symbol `name`.
    fn parse_symbol(&self, name: &str) -> (r: Result<AstNode, CompilationError>)
        ensures
            r matches Ok(AstNode::Symbol(x)) && x@ == name@,
    {
        Ok(AstNode::Symbol(to_owned_string(name)))
    }

    /// The string literal `text`.
    fn parse_string(&self, text: &str) -> (r: Result<AstNode, CompilationError>)
        ensures
            r matches Ok(AstNode::Literal(Literal::String(x))) && x@ == text@,
    {
        Ok(AstNode::Literal(Literal::String(to_owned_string(text))))
    }

    /// The boolean literal `value`.
    fn parse_boolean(&self, value: bool) -> (r: Result<AstNode, CompilationError>)
        ensures
            r == Ok::<AstNode, CompilationError>(AstNode::Literal(Literal::Bool(value))),
    {
        Ok(AstNode::Literal(Literal::Bool(value)))
    }

    /// The nil literal.
    fn parse_nil(&self) -> (r: Result<AstNode, CompilationError>)
        ensures
            r == Ok::<AstNode, CompilationError>(AstNode::Literal(Literal::Nil)),
    {
        Ok(AstNode::Literal(Literal::Nil))
    }

    /// The literal a number text denotes: an integer where the text is
    /// integral (read as a double, saturated at `i64::MAX`), and otherwise a float carried by
    /// its text.
    fn parse_number_text(&self, text: &str) -> (r: Result<AstNode, CompilationError>)
        ensures
            r matches Ok(n) && number_literal_matches(n, text@),
    {
        Ok(number_literal(text))
    }

    /// Moves to the next token.
    fn advance(&mut self)
        requires
            old(self).position < old(self).tokens@.len(),
        ensures
            final(self).tokens == old(self).tokens,
            final(self).position == old(self).position + 1,
    {
        if self.position < self.tokens.len() {
            self.position = self.position + 1;
        }
    }
}


/// The special form named by the token after an opening parenthesis.
fn list_form_of(tok: &Token) -> (r: ListForm)
    ensures
        r == list_form(tok@),
{
    match tok {
        Token::Symbol(s) => {
            let h = s.as_str();
            if h.unicode_len() > 0 && h.get_char(0) == ':' {
                ListForm::TrustTier
            } else if str_eq(h, "lambda") {
                ListForm::Lambda
            } else if str_eq(h, "let") {
                ListForm::Let
            } else if str_eq(h, "if") {
                ListForm::If
            } else if str_eq(h, "require-capability") {
                ListForm::RequireCapability
            } else if str_eq(h, "has-capability?") {
                ListForm::HasCapability
            } else if str_eq(h, "defmacro") {
                ListForm::MacroDefinition
            } else if str_eq(h, "comptime-eval") {
                ListForm::ComptimeEval
            } else if str_eq(h, "ffi-call") {
                ListForm::FfiCall
            } else {
                ListForm::CallWithSymbol
            }
        },
        Token::OpenParen => ListForm::CallWithExpression,
        _ => ListForm::CallWithSymbol,
    }
}

/// How a token is written in diagnostics.
pub fn token_debug_string(tok: &Token) -> (r: String)
    ensures
        r@ == token_debug(tok@),
{
    match tok {
        Token::OpenParen => String::from_str("OpenParen"),
        Token::CloseParen => String::from_str("CloseParen"),
        Token::LeftBracket => String::from_str("LeftBracket"),
        Token::RightBracket => String::from_str("RightBracket"),
        Token::LeftBrace => String::from_str("LeftBrace"),
        Token::RightBrace => String::from_str("RightBrace"),
        Token::Dot => String::from_str("Dot"),
        Token::Comma => String::from_str("Comma"),
        Token::Semicolon => String::from_str("Semicolon"),
        Token::Colon => String::from_str("Colon"),
        Token::Quote => String::from_str("Quote"),
        Token::Backtick => String::from_str("Backtick"),
        Token::Plus => String::from_str("Plus"),
        Token::Minus => String::from_str("Minus"),
        Token::Star => String::from_str("Star"),
        Token::Slash => String::from_str("Slash"),
        Token::Percent => String::from_str("Percent"),
        Token::Equals => String::from_str("Equals"),
        Token::Bang => String::from_str("Bang"),
        Token::Less => String::from_str("Less"),
        Token::Greater => String::from_str("Greater"),
        Token::Ampersand => String::from_str("Ampersand"),
        Token::Pipe => String::from_str("Pipe"),
        Token::Caret => String::from_str("Caret"),
        Token::Question => String::from_str("Question"),
        Token::Symbol(s) => wrap_debug("Symbol(", s.as_str()),
        Token::QuotedSymbol(s) => wrap_debug("QuotedSymbol(", s.as_str()),
        Token::Number(s) => wrap_debug("Number(", s.as_str()),
        Token::String(s) => wrap_debug("String(", s.as_str()),
        Token::Boolean(b) => if *b {
            String::from_str("Boolean(true)")
        } else {
            String::from_str("Boolean(false)")
        },
        Token::Nil => String::from_str("Nil"),
        Token::Unknown(c) => {
            let mut m = String::from_str("Unknown(");
            let d = debug_char(*c);
            m.append(d.as_str());
            m.append(")");
            m
        },
        Token::Eof => String::from_str("Eof"),
    }
}

/// `head`, the debug form of `s`, and a closing parenthesis.
fn wrap_debug(head: &str, s: &str) -> (r: String)
    ensures
        r@ == head@ + debug_str_text(s@) + ")"@,
{
    let mut m = String::from_str(head);
    let d = crate::text::debug_str(s);
    m.append(d.as_str());
    m.append(")");
    m
}

/// Is a call's head `name` a variable (rather than an operator symbol).
fn is_callee_variable(name: &str) -> (r: bool)
    ensures
        r == callee_is_variable(name@),
{
    if str_eq(name, "+") || str_eq(name, "-") || str_eq(name, "*") || str_eq(name, "/") || str_eq(
        name,
        "%",
    ) || str_eq(name, "<") || str_eq(name, ">") || str_eq(name, "=") || str_eq(name, "!") {
        return false;
    }
    let n = name.unicode_len();
    let mut i: usize = 0;
    while i < n
        invariant
            n == name@.len(),
            i <= n,
            forall|k: int| 0 <= k < i ==> callee_char(name@[k]),
        decreases n - i,
    {
        let c = name.get_char(i);
        if !(char_is_alphanumeric(c) || c == '-' || c == '?' || c == '!' || c == '_' || c == ':') {
            return false;
        }
        i = i + 1;
    }
    true
}

/// The literal a number text denotes: an integer where the text is
/// integral (its value read as a double, then saturated at `i64::MAX`), and
/// otherwise a float carried by its text.
pub fn number_literal(text: &str) -> (r: AstNode)
    ensures
        number_literal_matches(r, text@),
{
    let ghost t = text@;
    let n = text.unicode_len();
    let mut d: usize = 0;
    while d < n
        invariant
            t == text@,
            n == t.len(),
            d <= n,
            dot_from(t, 0) == dot_from(t, d as int),
        ensures
            t == text@,
            n == t.len(),
            d <= n,
            dot_from(t, 0) == d,
        decreases n - d,
    {
        if text.get_char(d) == '.' {
            assert(dot_from(t, d as int) == d);
            break;
        }
        d = d + 1;
    }
    assert(dot_position(t) == d);
    if d == 0 {
        return AstNode::Literal(Literal::Float(to_owned_string(text)));
    }
    let mut i: usize = 0;
    while i < d
        invariant
            t == text@,
            n == t.len(),
            d <= n,
            d == dot_position(t),
            i <= d,
            forall|k: int| 0 <= k < i ==> is_decimal_digit(t[k]),
        decreases d - i,
    {
        let c = text.get_char(i);
        if !('0' <= c && c <= '9') {
            assert(!is_decimal_digit(t[i as int]));
            assert(!integral_text(t));
            return AstNode::Literal(Literal::Float(to_owned_string(text)));
        }
        i = i + 1;
    }
    let mut j: usize = if d < n { d + 1 } else { n };
    while j < n
        invariant
            t == text@,
            n == t.len(),
            d < j || j == n,
            d <= n,
            d == dot_position(t),
            forall|k: int| 0 <= k < d ==> is_decimal_digit(t[k]),
            forall|k: int| d < k < j && k < n ==> t[k] == '0',
        decreases n - j,
    {
        if text.get_char(j) != '0' {
            assert(d < j && t[j as int] != '0');
            assert(!integral_text(t));
            return AstNode::Literal(Literal::Float(to_owned_string(text)));
        }
        j = j + 1;
    }
    assert(integral_text(t));
    let ghost digits = t.subrange(0, d as int);
    let mut v: u64 = 0;
    let mut k: usize = 0;
    while k < d
        invariant
            t == text@,
            n == t.len(),
            d <= n,
            d > 0,
            d == dot_position(t),
            integral_text(t),
            digits == t.subrange(0, d as int),
            forall|m: int| 0 <= m < d ==> is_decimal_digit(t[m]),
            k <= d,
            v == digits_value(digits.take(k as int)),
            v <= i64::MAX,
        decreases d - k,
    {
        let c = text.get_char(k);
        let digit: u64 = (c as u32 - '0' as u32) as u64;
        assert(digits.take(k as int + 1).drop_last() =~= digits.take(k as int));
        if v > (9223372036854775807u64 - digit) / 10 {
            proof {
                lemma_digits_value_prefix(digits, k as int + 1);
            }
            return AstNode::Literal(Literal::Int(i64::MAX));
        }
        v = v * 10 + digit;
        k = k + 1;
    }
    assert(digits.take(d as int) =~= digits);
    let rounded = round_to_double(v);
    if rounded > 9223372036854775807u64 {
        AstNode::Literal(Literal::Int(i64::MAX))
    } else {
        AstNode::Literal(Literal::Int(rounded as i64))
    }
}

/// `v` rounded to the nearest double, ties to even.
pub fn round_to_double(v: u64) -> (r: u64)
    requires
        v <= i64::MAX,
    ensures
        r == nearest_double(v as nat),
{
    let mut w: u64 = v;
    let mut m: u64 = 1;
    while w >= 0x20_0000_0000_0000
        invariant
            v <= i64::MAX,
            1 <= m <= 2048,
            w == v as nat / m as nat,
            double_unit(w as nat, m as nat) == double_unit(v as nat, 1),
        decreases w,
    {
        proof {
            vstd::arithmetic::div_mod::lemma_fundamental_div_mod(v as int, m as int);
            vstd::arithmetic::div_mod::lemma_mod_pos_bound(v as int, m as int);
            assert(m * w <= v);
            assert(m < 1024) by (nonlinear_arith)
                requires
                    m * w <= v,
                    v < 0x8000_0000_0000_0000,
                    w >= 0x20_0000_0000_0000,
            ;
            vstd::arithmetic::div_mod::lemma_div_denominator(v as int, m as int, 2);
        }
        w = w / 2;
        m = m * 2;
    }
    proof {
        vstd::arithmetic::div_mod::lemma_fundamental_div_mod(v as int, m as int);
        vstd::arithmetic::div_mod::lemma_mod_pos_bound(v as int, m as int);
    }
    let q = v / m;
    let r = v % m;
    assert(q == w);
    assert(m * q + r == v);
    assert(q * m == m * q) by (nonlinear_arith);
    assert((q + 1) * m == q * m + m) by (nonlinear_arith);
    if 2 * r > m || (2 * r == m && q % 2 == 1) {
        (q + 1) * m
    } else {
        q * m
    }
}

/// A well-formed expression ends after where it starts, and not past the
/// end of the tokens.
pub proof fn lemma_pexpr_bounds(t: Seq<TokenView>, p: int)
    requires
        0 <= p,
    ensures
        pexpr(t, p) matches Ok(e) ==> p < e <= t.len(),
    decreases t.len() - p, 1int,
{
    if p < t.len() && t[p] is OpenParen {
        lemma_plist_bounds(t, p);
    }
}

/// A well-formed list ends after where it starts, and not past the end of
/// the tokens.
pub proof fn lemma_plist_bounds(t: Seq<TokenView>, p: int)
    requires
        0 <= p,
    ensures
        plist(t, p) matches Ok(e) ==> p < e <= t.len(),
    decreases t.len() - p, 0int,
{
    let q = p + 1;
    if q < t.len() {
        match list_form(t[q]) {
            ListForm::TrustTier | ListForm::ComptimeEval => {
                lemma_pexpr_bounds(t, q + 1);
            },
            ListForm::Lambda => {
                if let Ok(r) = pparams(t, q + 1) {
                    if p < r <= t.len() {
                        lemma_pexpr_bounds(t, r);
                    }
                }
            },
            ListForm::MacroDefinition => {
                if let Ok(r) = pparams(t, q + 2) {
                    if p < r <= t.len() {
                        lemma_pexpr_bounds(t, r);
                    }
                }
            },
            ListForm::Let => {
                if let Ok(r) = pbindings(t, q + 1) {
                    if p < r <= t.len() {
                        lemma_pexpr_bounds(t, r);
                    }
                }
            },
            ListForm::If => {
                lemma_pexpr_bounds(t, q + 1);
                if let Ok(r1) = pexpr(t, q + 1) {
                    lemma_pexpr_bounds(t, r1);
                    if let Ok(r2) = pexpr(t, r1) {
                        lemma_pexpr_bounds(t, r2);
                    }
                }
            },
            ListForm::RequireCapability | ListForm::HasCapability => {},
            ListForm::FfiCall => {
                if q + 1 < t.len() {
                    lemma_pitems_bounds(t, q + 2, false);
                }
            },
            ListForm::CallWithExpression => {
                lemma_pexpr_bounds(t, q);
                if let Ok(r) = pexpr(t, q) {
                    if p < r <= t.len() {
                        lemma_pitems_bounds(t, r, true);
                    }
                }
            },
            ListForm::CallWithSymbol => {
                lemma_pitems_bounds(t, q + 1, true);
            },
        }
    }
}

/// Arguments end at or after where they continue, and not past the end of
/// the tokens.
pub proof fn lemma_pitems_bounds(t: Seq<TokenView>, r: int, need_close: bool)
    requires
        0 <= r <= t.len(),
    ensures
        pitems(t, r, need_close) matches Ok(e) ==> r <= e <= t.len(),
    decreases t.len() - r, 2int,
{
    if r < t.len() && !(t[r] is CloseParen) {
        lemma_pexpr_bounds(t, r);
        if let Ok(r2) = pexpr(t, r) {
            if r < r2 <= t.len() {
                lemma_pitems_bounds(t, r2, need_close);
            }
        }
    }
}

/// A bindings list ends after where it starts, and not past the end of the
/// tokens.
pub proof fn lemma_pbindings_bounds(t: Seq<TokenView>, p: int)
    requires
        0 <= p,
    ensures
        pbindings(t, p) matches Ok(e) ==> p < e <= t.len(),
    decreases t.len() - p, 3int,
{
    if p < t.len() && t[p] is OpenParen {
        lemma_pbinds_bounds(t, p + 1);
    }
}

/// Bindings end at or after where they continue, and not past the end of
/// the tokens.
pub proof fn lemma_pbinds_bounds(t: Seq<TokenView>, r: int)
    requires
        0 <= r <= t.len(),
    ensures
        pbinds(t, r) matches Ok(e) ==> r <= e <= t.len(),
    decreases t.len() - r, 3int,
{
    if r < t.len() && t[r] is OpenParen && r + 1 < t.len() && t[r + 1] is Symbol {
        if let Ok(r2) = pexpr(t, r + 2) {
            if r < r2 <= t.len() && r2 < t.len() && t[r2] is CloseParen {
                lemma_pbinds_bounds(t, r2 + 1);
            }
        }
    }
}

/// A parameter list ends after where it starts, and not past the end of
/// the tokens.
pub proof fn lemma_pparams_bounds(t: Seq<TokenView>, p: int)
    requires
        0 <= p,
    ensures
        pparams(t, p) matches Ok(e) ==> p < e <= t.len(),
{
    if p < t.len() && t[p] is OpenParen {
        lemma_pnames_bounds(t, p + 1);
    }
}

/// Names end at or after where they continue, and not past the end of the
/// tokens.
pub proof fn lemma_pnames_bounds(t: Seq<TokenView>, r: int)
    requires
        0 <= r <= t.len(),
    ensures
        pnames(t, r) matches Ok(e) ==> r <= e <= t.len(),
    decreases t.len() - r,
{
    if r < t.len() && t[r] is Symbol {
        lemma_pnames_bounds(t, r + 1);
    }
}

/// Is `e` the parse error with message `m` (parse errors carry no location).
pub open spec fn is_parse_error(e: CompilationError, m: Seq<char>) -> bool {
    e matches CompilationError::ParseError { message, location } && message@ == m && location
        == unknown_location()
}

} // verus!
