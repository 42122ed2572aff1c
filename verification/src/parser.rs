//! The parser's own lexer, which reads the language's s-expression syntax
//! character by character, and the entry point that parses a whole source
//! text.
//!
//! The lexer bounds how deeply parentheses nest (1000 levels) and the parser
//! how many tokens a program may have (10000). Positions count characters.
use vstd::prelude::*;

use crate::error::{CompilationError, ParserError, SourceLocation};

use crate::ast::AstNode;
use crate::expression_parser::{ExpressionParser, built, parse_result, pexpr, tree_of};
use crate::token::{Token, TokenView, token_views, lemma_token_views_push};
use crate::tokenizer::{location_after, lemma_location_after_concat};
use crate::text::{
    alphabetic, alphanumeric, is_decimal_digit, char_is_alphabetic,
    char_is_alphanumeric, char_is_decimal_digit, push_char,
};

verus! {

/// How deeply parentheses may nest.
pub const MAX_DEPTH: usize = 1000;

/// How many tokens a program may have.
pub const MAX_TOKENS: usize = 10000;

/// Can `c` occur in a symbol.
pub open spec fn symbol_char(c: char) -> bool {
    alphanumeric(c) || c == '-' || c == '?' || c == '!' || c == ':' || c == '+' || c == '*'
        || c == '/' || c == '=' || c == '<' || c == '>'
}

/// Can `c` start a symbol.
pub open spec fn symbol_start(c: char) -> bool {
    alphabetic(c) || c == ':' || c == '?' || c == '+' || c == '-' || c == '*' || c == '/'
        || c == '=' || c == '<' || c == '>'
}

/// Is `c` one of the whitespace characters the lexer skips.
pub open spec fn blank_char(c: char) -> bool {
    c == ' ' || c == '\t' || c == '\n' || c == '\r'
}

/// Can `c` occur in a number.
pub open spec fn number_char(c: char) -> bool {
    is_decimal_digit(c) || c == '.' || c == '-'
}

/// Where the run of characters satisfying `symbol_char` that starts at `j`
/// ends.
pub open spec fn symbol_end(s: Seq<char>, j: int) -> int
    decreases s.len() - j,
{
    if 0 <= j < s.len() && symbol_char(s[j]) {
        symbol_end(s, j + 1)
    } else {
        j
    }
}

/// Where the run of characters satisfying `number_char` that starts at `j`
/// ends.
pub open spec fn number_text_end(s: Seq<char>, j: int) -> int
    decreases s.len() - j,
{
    if 0 <= j < s.len() && number_char(s[j]) {
        number_text_end(s, j + 1)
    } else {
        j
    }
}

/// Where the comment that continues at `j` ends: just after the next
/// newline, or at the end of the input.
pub open spec fn comment_end(s: Seq<char>, j: int) -> int
    decreases s.len() - j,
{
    if 0 <= j < s.len() {
        if s[j] == '\n' {
            j + 1
        } else {
            comment_end(s, j + 1)
        }
    } else {
        j
    }
}

/// The number of times `c` occurs in `t`.
pub open spec fn count_char(t: Seq<char>, c: char) -> nat
    decreases t.len(),
{
    if t.len() == 0 {
        0
    } else {
        count_char(t.drop_last(), c) + if t.last() == c { 1nat } else { 0nat }
    }
}

/// Is the number text `t` (which starts with a digit and holds only digits,
/// dots and minus signs) a float literal: no minus sign and at most one dot.
pub open spec fn valid_number_text(t: Seq<char>) -> bool {
    count_char(t, '-') == 0 && count_char(t, '.') <= 1
}

/// The character that the escape `\e` stands for, if `e` is a valid escape.
pub open spec fn escape_char(e: char) -> Option<char> {
    if e == 'n' {
        Some('\n')
    } else if e == 't' {
        Some('\t')
    } else if e == 'r' {
        Some('\r')
    } else if e == '"' {
        Some('"')
    } else if e == '\\' {
        Some('\\')
    } else {
        None
    }
}

/// Why the lexer stopped.
pub enum LexFailure {
    /// Parentheses nest deeper than `MAX_DEPTH`.
    DepthExceeded,
    /// A quote is followed by no symbol.
    ExpectedSymbol,
    /// A string has a backslash before this character.
    InvalidEscape(char),
    /// A string is not closed.
    UnterminatedString,
    /// This number text is not a number.
    InvalidNumber(Seq<char>),
    /// This character starts no token.
    UnexpectedChar(char),
}

/// The body of a string literal that continues at `j`, with escapes
/// replaced, and the position after its closing quote; or why it cannot be
/// read, and where reading stopped.
pub open spec fn string_scan(s: Seq<char>, j: int) -> Result<(Seq<char>, int), (LexFailure, int)>
    decreases s.len() - j,
{
    if j < 0 || j >= s.len() {
        Err((LexFailure::UnterminatedString, if j < 0 { 0 } else { j }))
    } else if s[j] == '"' {
        Ok((Seq::empty(), j + 1))
    } else if s[j] == '\\' {
        if j + 1 >= s.len() {
            Err((LexFailure::UnterminatedString, j + 1))
        } else {
            match escape_char(s[j + 1]) {
                Some(e) => match string_scan(s, j + 2) {
                    Ok((t, k)) => Ok((seq![e] + t, k)),
                    Err(x) => Err(x),
                },
                None => Err((LexFailure::InvalidEscape(s[j + 1]), j + 1)),
            }
        }
    } else {
        match string_scan(s, j + 1) {
            Ok((t, k)) => Ok((seq![s[j]] + t, k)),
            Err(x) => Err(x),
        }
    }
}

/// One step of the lexer at position `i < s.len()` with `depth` open
/// parentheses: the token read (none for whitespace and comments), the
/// position after it and the new depth; or why lexing stops, and where.
pub open spec fn plex_token(s: Seq<char>, i: int, depth: nat) -> Result<
    (Option<TokenView>, int, nat),
    (LexFailure, int),
> {
    let c = s[i];
    if c == '(' {
        if depth >= MAX_DEPTH {
            Err((LexFailure::DepthExceeded, i))
        } else {
            Ok((Some(TokenView::OpenParen), i + 1, depth + 1))
        }
    } else if c == ')' {
        Ok((Some(TokenView::CloseParen), i + 1, if depth > 0 { (depth - 1) as nat } else { 0 }))
    } else if blank_char(c) {
        Ok((None, i + 1, depth))
    } else if c == ';' {
        Ok((None, comment_end(s, i + 1), depth))
    } else if c == '\'' {
        let e = symbol_end(s, i + 1);
        if e == i + 1 {
            Err((LexFailure::ExpectedSymbol, i + 1))
        } else {
            Ok((Some(TokenView::QuotedSymbol(s.subrange(i + 1, e))), e, depth))
        }
    } else if c == '"' {
        match string_scan(s, i + 1) {
            Ok((t, k)) => Ok((Some(TokenView::Str(t)), k, depth)),
            Err(x) => Err(x),
        }
    } else if is_decimal_digit(c) {
        let e = number_text_end(s, i);
        let t = s.subrange(i, e);
        if valid_number_text(t) {
            Ok((Some(TokenView::Number(t)), e, depth))
        } else {
            Err((LexFailure::InvalidNumber(t), e))
        }
    } else if symbol_start(c) {
        let e = symbol_end(s, i);
        let t = s.subrange(i, e);
        if e == i {
            Err((LexFailure::ExpectedSymbol, i))
        } else if t == "true"@ {
            Ok((Some(TokenView::Boolean(true)), e, depth))
        } else if t == "false"@ {
            Ok((Some(TokenView::Boolean(false)), e, depth))
        } else if t == "nil"@ {
            Ok((Some(TokenView::Nil), e, depth))
        } else {
            Ok((Some(TokenView::Symbol(t)), e, depth))
        }
    } else {
        Err((LexFailure::UnexpectedChar(c), i))
    }
}

/// The tokens of `s` from position `i` on, with `depth` parentheses open;
/// or why lexing stops, and where.
pub open spec fn plex_from(s: Seq<char>, i: int, depth: nat) -> Result<Seq<TokenView>, (LexFailure, int)>
    decreases s.len() - i,
{
    if i < 0 || i >= s.len() {
        Ok(Seq::empty())
    } else {
        match plex_token(s, i, depth) {
            Ok((tok, next, d)) => if i < next <= s.len() {
                match plex_from(s, next, d) {
                    Ok(rest) => match tok {
                        Some(t) => Ok(seq![t] + rest),
                        None => Ok(rest),
                    },
                    Err(x) => Err(x),
                }
            } else {
                Ok(Seq::empty())
            },
            Err(x) => Err(x),
        }
    }
}

/// The message of a lexing failure.
pub open spec fn lex_failure_message(f: LexFailure) -> Seq<char> {
    match f {
        LexFailure::DepthExceeded => "Max depth exceeded: nesting deeper than 1000"@,
        LexFailure::ExpectedSymbol => "Expected symbol"@,
        LexFailure::InvalidEscape(e) => "Invalid escape sequence: \\"@.push(e),
        LexFailure::UnterminatedString => "Unterminated string"@,
        LexFailure::InvalidNumber(t) => "Invalid number: "@ + t,
        LexFailure::UnexpectedChar(c) => "Unexpected character: '"@.push(c) + "'"@,
    }
}

/// Is `e` the error that reports failure `f` at location `loc`: running out
/// of nesting depth is a resource-limit error, anything else a parse error.
pub open spec fn is_lex_error(e: CompilationError, f: LexFailure, loc: SourceLocation) -> bool {
    match f {
        LexFailure::DepthExceeded => e matches CompilationError::ParserResourceLimit(pe) && pe.message@
            == lex_failure_message(f) && pe.location == loc,
        _ => e matches CompilationError::ParseError { message, location } && message@
            == lex_failure_message(f) && location == loc,
    }
}

/// The tokens `prefix` followed by the outcome `r` of lexing the rest.
pub open spec fn after_prefix(prefix: Seq<TokenView>, r: Result<Seq<TokenView>, (LexFailure, int)>) -> Result<
    Seq<TokenView>,
    (LexFailure, int),
> {
    match r {
        Ok(rest) => Ok(prefix + rest),
        Err(x) => Err(x),
    }
}

/// The parser of source text.
pub struct Parser {
    /// The source text.
    pub source: String,
    /// The number of characters read.
    pub position: usize,
    /// The current line.
    pub line: usize,
    /// The current column.
    pub column: usize,
    /// How many parentheses are open.
    pub depth: usize,
}

impl Parser {
    /// How many parentheses are open.
    pub open spec fn depth_spec(&self) -> nat {
        self.depth as nat
    }

    /// The position lies within the source, the line and column cannot have
    /// outgrown it, and the nesting is within its limit.
    pub open spec fn wf(&self) -> bool {
        &&& self.position <= self.source@.len()
        &&& self.source@.len() < usize::MAX
        &&& 1 <= self.line <= self.position + 1
        &&& 1 <= self.column <= self.position + 1
        &&& self.depth_spec() <= MAX_DEPTH
    }

    /// The location reached from this parser's position after reading up to
    /// position `q`.
    pub open spec fn location_to(&self, q: int) -> SourceLocation {
        let (l, c) = location_after(
            self.line as nat,
            self.column as nat,
            self.source@.subrange(self.position as int, q),
        );
        SourceLocation { line: l as usize, column: c as usize, offset: q as usize }
    }

    /// `next` has read the source of `self` up to position `q`, keeping
    /// track of lines and columns, with `depth` parentheses open.
    pub open spec fn moved_to(&self, next: Parser, q: int, depth: nat) -> bool {
        &&& next.source@ == self.source@
        &&& next.wf()
        &&& next.position == q
        &&& next.depth_spec() == depth
        &&& (next.line as nat, next.column as nat) == location_after(
            self.line as nat,
            self.column as nat,
            self.source@.subrange(self.position as int, q),
        )
    }

    /// `next` stands where `self` does, over the same source.
    pub open spec fn same_place(&self, next: Parser) -> bool {
        &&& next.source@ == self.source@
        &&& next.position == self.position
        &&& next.line == self.line
        &&& next.column == self.column
        &&& next.depth == self.depth
    }

    /// A parser at the start (line 1, column 1) of `source`.
    pub fn new(source: String) -> (r: Self)
        requires
            source@.len() < usize::MAX,
        ensures
            r.wf(),
            r.source@ == source@,
            r.position == 0,
            r.line == 1,
            r.column == 1,
            r.depth_spec() == 0,
    {
        Parser { source, position: 0, line: 1, column: 1, depth: 0 }
    }

    /// The current location.
    pub fn current_location(&self) -> (r: SourceLocation)
        ensures
            r == (SourceLocation { line: self.line, column: self.column, offset: self.position }),
    {
        SourceLocation { line: self.line, column: self.column, offset: self.position }
    }

    /// The next character, if any is left.
    fn current_char(&self) -> (r: Option<char>)
        requires
            self.wf(),
        ensures
            self.position < self.source@.len() ==> r == Some(self.source@[self.position as int]),
            self.position >= self.source@.len() ==> r is None,
    {
        let n = self.source.as_str().unicode_len();
        if self.position < n {
            Some(self.source.as_str().get_char(self.position))
        } else {
            None
        }
    }

    /// Moves past the next character, if any is left.
    fn advance(&mut self)
        requires
            old(self).wf(),
        ensures
            old(self).position < old(self).source@.len() ==> old(self).moved_to(
                *final(self),
                old(self).position + 1,
                old(self).depth_spec(),
            ),
            old(self).position >= old(self).source@.len() ==> old(self).same_place(*final(self)),
    {
        match self.current_char() {
            None => {},
            Some(c) => {
                let ghost s = self.source@;
                let ghost p = self.position as int;
                self.position = self.position + 1;
                self.column = self.column + 1;
                if c == '\n' {
                    self.line = self.line + 1;
                    self.column = 1;
                }
                proof {
                    let sub = s.subrange(p, p + 1);
                    assert(sub.drop_last() =~= Seq::<char>::empty());
                    let l0 = old(self).line as nat;
                    let c0 = old(self).column as nat;
                    assert(location_after(l0, c0, Seq::<char>::empty()) == (l0, c0));
                    assert(location_after(l0, c0, sub) == (if c == '\n' {
                        (l0 + 1, 1nat)
                    } else {
                        (l0, c0 + 1)
                    }));
                }
            },
        }
    }

    /// Moves past the blank characters (space, tab, newline, carriage
    /// return) that come next.
    fn skip_whitespace(&mut self)
        requires
            old(self).wf(),
        ensures
            old(self).moved_to(*final(self), final(self).position as int, old(self).depth_spec()),
            old(self).position <= final(self).position,
            forall|k: int| old(self).position <= k < final(self).position ==> blank_char(
                old(self).source@[k],
            ),
            final(self).position < old(self).source@.len() ==> !blank_char(
                old(self).source@[final(self).position as int],
            ),
    {
        let ghost start = *self;
        proof {
            lemma_moved_refl(start);
        }
        loop
            invariant
                start.wf(),
                start.moved_to(*self, self.position as int, start.depth_spec()),
                start.position <= self.position,
                forall|k: int| start.position <= k < self.position ==> blank_char(start.source@[k]),
            ensures
                start.moved_to(*self, self.position as int, start.depth_spec()),
                start.position <= self.position,
                forall|k: int| start.position <= k < self.position ==> blank_char(start.source@[k]),
                self.position < start.source@.len() ==> !blank_char(start.source@[self.position as int]),
            decreases self.source@.len() - self.position,
        {
            match self.current_char() {
                Some(c) => {
                    if c == ' ' || c == '\t' || c == '\n' || c == '\r' {
                        let ghost mid = *self;
                        self.advance();
                        proof {
                            lemma_moved_trans(start, mid, *self, mid.position as int, self.position as int, start.depth_spec());
                        }
                    } else {
                        break;
                    }
                },
                None => {
                    break;
                },
            }
        }
    }

    /// Moves past a comment: up to and including the next newline, or to the
    /// end.
    fn skip_comment(&mut self)
        requires
            old(self).wf(),
        ensures
            old(self).moved_to(
                *final(self),
                comment_end(old(self).source@, old(self).position as int),
                old(self).depth_spec(),
            ),
    {
        let ghost start = *self;
        proof {
            lemma_moved_refl(start);
        }
        loop
            invariant_except_break
                comment_end(start.source@, start.position as int) == comment_end(
                    start.source@,
                    self.position as int,
                ),
            invariant
                start.wf(),
                start.moved_to(*self, self.position as int, start.depth_spec()),
                start.position <= self.position,
            ensures
                start.moved_to(*self, self.position as int, start.depth_spec()),
                self.position == comment_end(start.source@, start.position as int),
            decreases self.source@.len() - self.position,
        {
            match self.current_char() {
                Some(c) => {
                    let ghost mid = *self;
                    self.advance();
                    proof {
                        lemma_moved_trans(start, mid, *self, mid.position as int, self.position as int, start.depth_spec());
                    }
                    if c == '\n' {
                        break;
                    }
                },
                None => {
                    break;
                },
            }
        }
    }

    /// Reads a symbol: the characters that may occur in one, as far as they
    /// go. Fails, without moving, where there is none.
    fn read_symbol(&mut self) -> (r: Result<String, CompilationError>)
        requires
            old(self).wf(),
        ensures
            ({
                let s = old(self).source@;
                let p = old(self).position as int;
                let e = symbol_end(s, p);
                &&& e > p ==> (r matches Ok(t) && t@ == s.subrange(p, e) && old(self).moved_to(
                    *final(self),
                    e,
                    old(self).depth_spec(),
                ))
                &&& e == p ==> (r matches Err(err) && is_lex_error(
                    err,
                    LexFailure::ExpectedSymbol,
                    old(self).location_to(p),
                ) && old(self).same_place(*final(self)))
            }),
    {
        let ghost start = *self;
        let start_position = self.position;
        proof {
            lemma_moved_refl(start);
        }
        let mut symbol = String::new();
        loop
            invariant
                start.wf(),
                start.moved_to(*self, self.position as int, start.depth_spec()),
                start.position <= self.position,
                symbol_end(start.source@, start.position as int) == symbol_end(
                    start.source@,
                    self.position as int,
                ),
                symbol@ == start.source@.subrange(start.position as int, self.position as int),
            ensures
                start.moved_to(*self, self.position as int, start.depth_spec()),
                self.position == symbol_end(start.source@, start.position as int),
                symbol@ == start.source@.subrange(start.position as int, self.position as int),
            decreases self.source@.len() - self.position,
        {
            match self.current_char() {
                Some(c) => {
                    if char_is_alphanumeric(c) || c == '-' || c == '?' || c == '!' || c == ':' || c
                        == '+' || c == '*' || c == '/' || c == '=' || c == '<' || c == '>' {
                        let ghost mid = *self;
                        self.advance();
                        proof {
                            lemma_moved_trans(start, mid, *self, mid.position as int, self.position as int, start.depth_spec());
                        }
                        push_char(&mut symbol, c);
                        assert(symbol@ =~= start.source@.subrange(start.position as int, self.position as int));
                    } else {
                        break;
                    }
                },
                None => {
                    break;
                },
            }
        }
        if self.position == start_position {
            proof {
                assert(start.source@.subrange(start.position as int, start.position as int) =~= Seq::<char>::empty());
                assert(location_after(start.line as nat, start.column as nat, Seq::<char>::empty()) == (start.line as nat, start.column as nat));
                assert(self.line == start.line && self.column == start.column);
            }
            return Err(CompilationError::ParseError {
                message: String::from_str("Expected symbol"),
                location: self.current_location(),
            });
        }
        Ok(symbol)
    }

    /// Parses the source: reads it into tokens and parses the first
    /// expression they hold. Fails where lexing fails, where there are more
    /// than `MAX_TOKENS` tokens, or where the tokens do not start with a
    /// well-formed expression.
    pub fn parse(&mut self) -> (r: Result<AstNode, CompilationError>)
        requires
            old(self).wf(),
        ensures
            parse_outcome(
                old(self).source@,
                old(self).position as int,
                old(self).depth_spec(),
                |q: int| old(self).location_to(q),
                r,
            ),
    {
        let ghost start = *self;
        let tokens = match self.tokenize() {
            Ok(t) => t,
            Err(e) => {
                return Err(e);
            },
        };
        if tokens.len() > MAX_TOKENS {
            proof {
                lemma_location_to_moved(start, *self, start.source@.len() as int);
            }
            return Err(CompilationError::ParserResourceLimit(ParserError {
                message: String::from_str("Token limit exceeded: more than 10000 tokens"),
                location: self.current_location(),
            }));
        }
        let mut expression_parser = ExpressionParser::new(tokens.as_slice());
        expression_parser.parse()
    }

    /// Reads the rest of a string literal, after its opening quote, up to
    /// and including its closing quote, replacing escapes.
    fn read_string(&mut self) -> (r: Result<String, CompilationError>)
        requires
            old(self).wf(),
        ensures
            match string_scan(old(self).source@, old(self).position as int) {
                Ok((t, k)) => (r matches Ok(x) && x@ == t) && old(self).moved_to(
                    *final(self),
                    k,
                    old(self).depth_spec(),
                ),
                Err((f, q)) => (r matches Err(e) && is_lex_error(e, f, old(self).location_to(q)))
                    && old(self).moved_to(*final(self), q, old(self).depth_spec()),
            },
    {
        let ghost start = *self;
        let ghost s = self.source@;
        proof {
            lemma_moved_refl(start);
        }
        let mut text = String::new();
        loop
            invariant
                start.wf(),
                start == *old(self),
                s == start.source@,
                start.moved_to(*self, self.position as int, start.depth_spec()),
                start.position <= self.position,
                string_scan(s, start.position as int) == prefix_scan(
                    text@,
                    string_scan(s, self.position as int),
                ),
            decreases s.len() - self.position,
        {
            let ghost p = self.position as int;
            let ghost before = *self;
            match self.current_char() {
                None => {
                    proof {
                        lemma_location_to_moved(start, *self, p);
                        assert(string_scan(s, p) == Err::<(Seq<char>, int), (LexFailure, int)>((LexFailure::UnterminatedString, p)));
                        assert(string_scan(s, start.position as int) == Err::<(Seq<char>, int), (LexFailure, int)>((LexFailure::UnterminatedString, p)));
                    }
                    return Err(CompilationError::ParseError {
                        message: String::from_str("Unterminated string"),
                        location: self.current_location(),
                    });
                },
                Some(c) => {
                    if c == '"' {
                        self.advance();
                        proof {
                            lemma_moved_trans(start, before, *self, p, p + 1, start.depth_spec());
                            assert(text@ + Seq::<char>::empty() =~= text@);
                            assert(s[p] == '"');
                            assert(string_scan(s, p) == Ok::<(Seq<char>, int), (LexFailure, int)>((Seq::<char>::empty(), p + 1)));
                        }
                        return Ok(text);
                    } else if c == '\\' {
                        self.advance();
                        proof {
                            lemma_moved_trans(start, before, *self, p, p + 1, start.depth_spec());
                        }
                        let ghost mid = *self;
                        match self.current_char() {
                            None => {
                                proof {
                                    lemma_location_to_moved(start, *self, p + 1);
                                }
                                return Err(CompilationError::ParseError {
                                    message: String::from_str("Unterminated string"),
                                    location: self.current_location(),
                                });
                            },
                            Some(e) => {
                                let decoded: Option<char> = if e == 'n' {
                                    Some('\n')
                                } else if e == 't' {
                                    Some('\t')
                                } else if e == 'r' {
                                    Some('\r')
                                } else if e == '"' {
                                    Some('"')
                                } else if e == '\\' {
                                    Some('\\')
                                } else {
                                    None
                                };
                                match decoded {
                                    Some(d) => {
                                        let ghost old_text = text@;
                                        push_char(&mut text, d);
                                        self.advance();
                                        proof {
                                            lemma_moved_trans(start, mid, *self, p + 1, p + 2, start.depth_spec());
                                            assert(seq![d] + Seq::<char>::empty() =~= seq![d]);
                                            match string_scan(s, p + 2) {
                                                Ok((t, k)) => {
                                                    assert(old_text + (seq![d] + t) =~= text@ + t);
                                                },
                                                Err(x) => {},
                                            }
                                        }
                                    },
                                    None => {
                                        proof {
                                            lemma_location_to_moved(start, *self, p + 1);
                                        }
                                        let mut m = String::from_str("Invalid escape sequence: \\");
                                        push_char(&mut m, e);
                                        return Err(CompilationError::ParseError {
                                            message: m,
                                            location: self.current_location(),
                                        });
                                    },
                                }
                            },
                        }
                    } else {
                        let ghost old_text = text@;
                        push_char(&mut text, c);
                        self.advance();
                        proof {
                            lemma_moved_trans(start, before, *self, p, p + 1, start.depth_spec());
                            match string_scan(s, p + 1) {
                                Ok((t, k)) => {
                                    assert(old_text + (seq![c] + t) =~= text@ + t);
                                },
                                Err(x) => {},
                            }
                        }
                    }
                },
            }
        }
    }

    /// Reads a number text: the digits, dots and minus signs that come next.
    /// Fails, without moving, where there are none.
    fn read_number(&mut self) -> (r: Result<String, CompilationError>)
        requires
            old(self).wf(),
        ensures
            ({
                let s = old(self).source@;
                let p = old(self).position as int;
                let e = number_text_end(s, p);
                &&& e > p ==> (r matches Ok(t) && t@ == s.subrange(p, e) && old(self).moved_to(
                    *final(self),
                    e,
                    old(self).depth_spec(),
                ))
                &&& e == p ==> (r matches Err(CompilationError::ParseError { message, location })
                    && message@ == "Expected number"@ && location == old(self).location_to(p)
                    && old(self).same_place(*final(self)))
            }),
    {
        let ghost start = *self;
        let start_position = self.position;
        proof {
            lemma_moved_refl(start);
        }
        let mut number = String::new();
        loop
            invariant
                start.wf(),
                start.moved_to(*self, self.position as int, start.depth_spec()),
                start.position <= self.position,
                start.position == start_position,
                number_text_end(start.source@, start.position as int) == number_text_end(
                    start.source@,
                    self.position as int,
                ),
                number@ == start.source@.subrange(start.position as int, self.position as int),
            ensures
                start.moved_to(*self, self.position as int, start.depth_spec()),
                self.position == number_text_end(start.source@, start.position as int),
                number@ == start.source@.subrange(start.position as int, self.position as int),
            decreases self.source@.len() - self.position,
        {
            match self.current_char() {
                Some(c) => {
                    if char_is_decimal_digit(c) || c == '.' || c == '-' {
                        let ghost mid = *self;
                        self.advance();
                        proof {
                            lemma_moved_trans(start, mid, *self, mid.position as int, self.position as int, start.depth_spec());
                        }
                        push_char(&mut number, c);
                        assert(number@ =~= start.source@.subrange(start.position as int, self.position as int));
                    } else {
                        break;
                    }
                },
                None => {
                    break;
                },
            }
        }
        if self.position == start_position {
            proof {
                assert(start.source@.subrange(start.position as int, start.position as int) =~= Seq::<char>::empty());
                assert(location_after(start.line as nat, start.column as nat, Seq::<char>::empty()) == (start.line as nat, start.column as nat));
            }
            return Err(CompilationError::ParseError {
                message: String::from_str("Expected number"),
                location: self.current_location(),
            });
        }
        Ok(number)
    }

    /// Splits the rest of the source into tokens. `true`, `false` and `nil`
    /// become booleans and nil; fails on a malformed string, number or
    /// quoted symbol, an unexpected character, or nesting deeper than
    /// `MAX_DEPTH`.
    pub fn tokenize(&mut self) -> (r: Result<Vec<Token>, CompilationError>)
        requires
            old(self).wf(),
        ensures
            match plex_from(old(self).source@, old(self).position as int, old(self).depth_spec()) {
                Ok(v) => (r matches Ok(toks) && token_views(toks@) == v) && old(self).moved_to(
                    *final(self),
                    old(self).source@.len() as int,
                    final(self).depth_spec(),
                ),
                Err((f, q)) => r matches Err(e) && is_lex_error(e, f, old(self).location_to(q)),
            },
    {
        let ghost start = *self;
        let ghost s = self.source@;
        proof {
            lemma_moved_refl(start);
        }
        let mut tokens: Vec<Token> = Vec::new();
        loop
            invariant
                start.wf(),
                start == *old(self),
                s == start.source@,
                start.moved_to(*self, self.position as int, self.depth_spec()),
                start.position <= self.position,
                plex_from(s, start.position as int, start.depth_spec()) == after_prefix(
                    token_views(tokens@),
                    plex_from(s, self.position as int, self.depth_spec()),
                ),
            decreases s.len() - self.position,
        {
            let ghost p = self.position as int;
            let ghost d = self.depth_spec();
            let ghost before = *self;
            let ghost tv = token_views(tokens@);
            let c = match self.current_char() {
                Some(c) => c,
                None => {
                    proof {
                        assert(tv + Seq::<TokenView>::empty() =~= tv);
                    }
                    return Ok(tokens);
                },
            };
            proof {
                lemma_plex_token_advances(s, p, d);
            }
            if c == '(' {
                if self.depth >= MAX_DEPTH {
                    proof {
                        lemma_location_to_moved(start, *self, p);
                    }
                    return Err(CompilationError::ParserResourceLimit(ParserError {
                        message: String::from_str("Max depth exceeded: nesting deeper than 1000"),
                        location: self.current_location(),
                    }));
                }
                self.depth = self.depth + 1;
                let ghost bumped = *self;
                self.advance();
                proof {
                    lemma_moved_trans(start, bumped, *self, p, p + 1, d + 1);
                    lemma_token_views_push(tokens@, Token::OpenParen);
                }
                tokens.push(Token::OpenParen);
                proof {
                    lemma_after_prefix_push(tv, TokenView::OpenParen, plex_from(s, p + 1, d + 1));
                }
            } else if c == ')' {
                if self.depth > 0 {
                    self.depth = self.depth - 1;
                }
                let ghost lowered = *self;
                self.advance();
                proof {
                    lemma_moved_trans(start, lowered, *self, p, p + 1, self.depth_spec());
                    lemma_token_views_push(tokens@, Token::CloseParen);
                }
                tokens.push(Token::CloseParen);
                proof {
                    lemma_after_prefix_push(tv, TokenView::CloseParen, plex_from(s, p + 1, self.depth_spec()));
                }
            } else if c == ' ' || c == '\t' || c == '\n' || c == '\r' {
                self.skip_whitespace();
                proof {
                    lemma_moved_trans(start, before, *self, p, self.position as int, d);
                    lemma_plex_blank_run(s, p, self.position as int, d);
                }
            } else if c == ';' {
                self.advance();
                let ghost mid = *self;
                self.skip_comment();
                proof {
                    lemma_moved_trans(start, before, mid, p, p + 1, d);
                    lemma_moved_trans(start, mid, *self, p + 1, self.position as int, d);
                    lemma_scan_ends(s, p + 1);
                }
            } else if c == '\'' {
                self.advance();
                let ghost mid = *self;
                proof {
                    lemma_moved_trans(start, before, mid, p, p + 1, d);
                }
                match self.read_symbol() {
                    Ok(sym) => {
                        proof {
                            lemma_moved_trans(start, mid, *self, p + 1, self.position as int, d);
                            lemma_token_views_push(tokens@, Token::QuotedSymbol(sym));
                        }
                        tokens.push(Token::QuotedSymbol(sym));
                        proof {
                            lemma_after_prefix_push(tv, TokenView::QuotedSymbol(s.subrange(p + 1, self.position as int)), plex_from(s, self.position as int, d));
                        }
                    },
                    Err(e) => {
                        proof {
                            lemma_location_to_moved(start, mid, p + 1);
                        }
                        return Err(e);
                    },
                }
            } else if c == '"' {
                self.advance();
                let ghost mid = *self;
                proof {
                    lemma_moved_trans(start, before, mid, p, p + 1, d);
                    lemma_string_scan(s, p + 1);
                }
                match self.read_string() {
                    Ok(text) => {
                        proof {
                            lemma_moved_trans(start, mid, *self, p + 1, self.position as int, d);
                            lemma_token_views_push(tokens@, Token::String(text));
                        }
                        tokens.push(Token::String(text));
                        proof {
                            lemma_after_prefix_push(tv, TokenView::Str(text@), plex_from(s, self.position as int, d));
                        }
                    },
                    Err(e) => {
                        proof {
                            let q = self.position as int;
                            lemma_moved_trans(start, mid, *self, p + 1, q, d);
                            lemma_location_to_moved(start, *self, q);
                        }
                        return Err(e);
                    },
                }
            } else if char_is_decimal_digit(c) {
                assert(number_text_end(s, p) == number_text_end(s, p + 1));
                proof {
                    lemma_scan_ends(s, p + 1);
                }
                let number = match self.read_number() {
                    Ok(n) => n,
                    Err(e) => {
                        return Err(e);
                    },
                };
                proof {
                    lemma_moved_trans(start, before, *self, p, self.position as int, d);
                }
                if is_valid_number_text(&number) {
                    proof {
                        lemma_token_views_push(tokens@, Token::Number(number));
                    }
                    tokens.push(Token::Number(number));
                    proof {
                        lemma_after_prefix_push(tv, TokenView::Number(number@), plex_from(s, self.position as int, d));
                    }
                } else {
                    proof {
                        lemma_location_to_moved(start, *self, self.position as int);
                    }
                    let mut m = String::from_str("Invalid number: ");
                    m.append(number.as_str());
                    return Err(CompilationError::ParseError { message: m, location: self.current_location() });
                }
            } else if char_is_alphabetic(c) || c == ':' || c == '?' || c == '+' || c == '-' || c == '*'
                || c == '/' || c == '=' || c == '<' || c == '>' {
                match self.read_symbol() {
                    Ok(sym) => {
                        proof {
                            lemma_moved_trans(start, before, *self, p, self.position as int, d);
                        }
                        let t = if crate::text::str_eq(sym.as_str(), "true") {
                            Token::Boolean(true)
                        } else if crate::text::str_eq(sym.as_str(), "false") {
                            Token::Boolean(false)
                        } else if crate::text::str_eq(sym.as_str(), "nil") {
                            Token::Nil
                        } else {
                            Token::Symbol(sym)
                        };
                        proof {
                            lemma_token_views_push(tokens@, t);
                        }
                        tokens.push(t);
                        proof {
                            lemma_after_prefix_push(tv, t@, plex_from(s, self.position as int, d));
                        }
                    },
                    Err(e) => {
                        proof {
                            lemma_location_to_moved(start, before, p);
                        }
                        return Err(e);
                    },
                }
            } else {
                proof {
                    lemma_location_to_moved(start, *self, p);
                }
                let mut m = String::from_str("Unexpected character: '");
                push_char(&mut m, c);
                m.append("'");
                return Err(CompilationError::ParseError { message: m, location: self.current_location() });
            }
        }
    }
}

/// The text `acc` followed by the outcome `r` of reading the rest of a
/// string literal.
pub open spec fn prefix_scan(acc: Seq<char>, r: Result<(Seq<char>, int), (LexFailure, int)>) -> Result<
    (Seq<char>, int),
    (LexFailure, int),
> {
    match r {
        Ok((t, k)) => Ok((acc + t, k)),
        Err(x) => Err(x),
    }
}

/// Where a parser that has moved on from `a` to `p` stands is where `a`
/// would reach at `p`.
pub proof fn lemma_location_to_moved(a: Parser, b: Parser, p: int)
    requires
        a.moved_to(b, p, b.depth_spec()),
    ensures
        a.location_to(p) == (SourceLocation { line: b.line, column: b.column, offset: b.position }),
{
}

/// Pushing a token onto the prefix and taking it off the outcome of the
/// rest agree.
pub proof fn lemma_after_prefix_push(
    prefix: Seq<TokenView>,
    t: TokenView,
    r: Result<Seq<TokenView>, (LexFailure, int)>,
)
    ensures
        after_prefix(prefix.push(t), r) == after_prefix(
            prefix,
            match r {
                Ok(rest) => Ok(seq![t] + rest),
                Err(x) => Err(x),
            },
        ),
{
    match r {
        Ok(rest) => {
            assert(prefix.push(t) + rest =~= prefix + (seq![t] + rest));
        },
        Err(x) => {},
    }
}

/// The scanning functions end at or after where they start, and not past
/// the end of the source.
pub proof fn lemma_scan_ends(s: Seq<char>, j: int)
    requires
        0 <= j <= s.len(),
    ensures
        j <= symbol_end(s, j) <= s.len(),
        j <= number_text_end(s, j) <= s.len(),
        j <= comment_end(s, j) <= s.len(),
    decreases s.len() - j,
{
    if j < s.len() {
        lemma_scan_ends(s, j + 1);
    }
}

/// A string literal that can be read ends after where it continues and not
/// past the end of the source.
pub proof fn lemma_string_scan(s: Seq<char>, j: int)
    requires
        0 <= j <= s.len(),
    ensures
        string_scan(s, j) matches Ok((t, k)) ==> j < k <= s.len(),
        string_scan(s, j) matches Err((f, q)) ==> j <= q <= s.len(),
    decreases s.len() - j,
{
    if j < s.len() && s[j] != '"' {
        if s[j] == '\\' {
            if j + 1 < s.len() {
                lemma_string_scan(s, j + 2);
            }
        } else {
            lemma_string_scan(s, j + 1);
        }
    }
}

/// Each lexing step moves the position on, and not past the end.
pub proof fn lemma_plex_token_advances(s: Seq<char>, i: int, d: nat)
    requires
        0 <= i < s.len(),
    ensures
        plex_token(s, i, d) matches Ok((t, next, d2)) ==> i < next <= s.len(),
{
    lemma_scan_ends(s, i);
    lemma_scan_ends(s, i + 1);
    lemma_string_scan(s, i + 1);
}

/// Blank characters produce no token.
pub proof fn lemma_plex_blank_run(s: Seq<char>, i: int, j: int, d: nat)
    requires
        0 <= i <= j <= s.len(),
        forall|k: int| i <= k < j ==> blank_char(s[k]),
    ensures
        plex_from(s, i, d) == plex_from(s, j, d),
    decreases j - i,
{
    if i < j {
        lemma_plex_blank_run(s, i + 1, j, d);
    }
}

/// Does a number text hold no minus sign and at most one dot.
fn is_valid_number_text(t: &String) -> (r: bool)
    ensures
        r == valid_number_text(t@),
{
    let n = t.as_str().unicode_len();
    let mut minus: usize = 0;
    let mut dots: usize = 0;
    let mut i: usize = 0;
    while i < n
        invariant
            n == t@.len(),
            i <= n,
            minus == count_char(t@.take(i as int), '-'),
            dots == count_char(t@.take(i as int), '.'),
            minus <= i,
            dots <= i,
        decreases n - i,
    {
        let c = t.as_str().get_char(i);
        assert(t@.take(i as int + 1).drop_last() =~= t@.take(i as int));
        if c == '-' {
            minus = minus + 1;
        } else if c == '.' {
            dots = dots + 1;
        }
        i = i + 1;
    }
    assert(t@.take(n as int) =~= t@);
    minus == 0 && dots <= 1
}

/// What `Parser::parse` gives for source `s` lexed from position `p` with
/// `d` parentheses open, where `loc` says where each position lies.
pub open spec fn parse_outcome(
    s: Seq<char>,
    p: int,
    d: nat,
    loc: spec_fn(int) -> SourceLocation,
    r: Result<AstNode, CompilationError>,
) -> bool {
    match plex_from(s, p, d) {
        Err((f, q)) => r matches Err(e) && is_lex_error(e, f, loc(q)),
        Ok(v) => if v.len() > MAX_TOKENS {
            r matches Err(CompilationError::ParserResourceLimit(pe)) && pe.message@
                == "Token limit exceeded: more than 10000 tokens"@ && pe.location == loc(s.len() as int)
        } else {
            parse_result(pexpr(v, 0), r, v, 0) && built(r, tree_of(v, 0))
        },
    }
}

/// Where each position of source `s` lies, counting lines and columns from 1.
pub open spec fn source_locations(s: Seq<char>) -> spec_fn(int) -> SourceLocation {
    |q: int|
        {
            let (l, c) = location_after(1, 1, s.subrange(0, q));
            SourceLocation { line: l as usize, column: c as usize, offset: q as usize }
        }
}

/// Parses Jue source text: reads it into tokens and parses the first
/// expression they hold.
pub fn parse(source: &str) -> (r: Result<AstNode, CompilationError>)
    requires
        source@.len() < usize::MAX,
    ensures
        parse_outcome(source@, 0, 0, source_locations(source@), r),
{
    let mut parser = Parser::new(to_owned(source));
    let r = parser.parse();
    r
}

fn to_owned(s: &str) -> (r: String)
    ensures
        r@ == s@,
{
    String::from_str(s)
}

/// A parser has read nothing from where it stands.
pub proof fn lemma_moved_refl(a: Parser)
    requires
        a.wf(),
    ensures
        a.moved_to(a, a.position as int, a.depth_spec()),
{
    assert(a.source@.subrange(a.position as int, a.position as int) =~= Seq::<char>::empty());
}

/// Reading from `a` to `p` and then from there to `q` is reading from `a`
/// to `q`.
pub proof fn lemma_moved_trans(a: Parser, b: Parser, c: Parser, p: int, q: int, d: nat)
    requires
        a.moved_to(b, p, b.depth_spec()),
        b.moved_to(c, q, d),
        a.position <= p <= q,
    ensures
        a.moved_to(c, q, d),
{
    let s = a.source@;
    lemma_location_after_concat(
        a.line as nat,
        a.column as nat,
        s.subrange(a.position as int, p),
        s.subrange(p, q),
    );
    assert(s.subrange(a.position as int, p) + s.subrange(p, q) =~= s.subrange(a.position as int, q));
}

} // verus!
