//! A general-purpose tokenizer: it splits source text into punctuation,
//! identifiers, numbers and string literals, and never fails (a character
//! that starts no token becomes an `Unknown` token).
//!
//! Positions count characters.
use vstd::prelude::*;
use crate::token::{Token, TokenView, token_views, lemma_token_views_push};
use crate::text::{
    alphabetic, alphanumeric, unicode_whitespace, is_decimal_digit,
    char_is_alphabetic, char_is_alphanumeric, char_is_whitespace, char_is_decimal_digit,
};

verus! {

/// The token of a single punctuation character, if `c` is one.
pub open spec fn punct_token(c: char) -> Option<TokenView> {
    if c == '(' { Some(TokenView::OpenParen) }
    else if c == ')' { Some(TokenView::CloseParen) }
    else if c == '[' { Some(TokenView::LeftBracket) }
    else if c == ']' { Some(TokenView::RightBracket) }
    else if c == '{' { Some(TokenView::LeftBrace) }
    else if c == '}' { Some(TokenView::RightBrace) }
    else if c == '.' { Some(TokenView::Dot) }
    else if c == ',' { Some(TokenView::Comma) }
    else if c == ';' { Some(TokenView::Semicolon) }
    else if c == ':' { Some(TokenView::Colon) }
    else if c == '\'' { Some(TokenView::Quote) }
    else if c == '`' { Some(TokenView::Backtick) }
    else if c == '+' { Some(TokenView::Plus) }
    else if c == '-' { Some(TokenView::Minus) }
    else if c == '*' { Some(TokenView::Star) }
    else if c == '/' { Some(TokenView::Slash) }
    else if c == '%' { Some(TokenView::Percent) }
    else if c == '=' { Some(TokenView::Equals) }
    else if c == '!' { Some(TokenView::Bang) }
    else if c == '<' { Some(TokenView::Less) }
    else if c == '>' { Some(TokenView::Greater) }
    else if c == '&' { Some(TokenView::Ampersand) }
    else if c == '|' { Some(TokenView::Pipe) }
    else if c == '^' { Some(TokenView::Caret) }
    else if c == '?' { Some(TokenView::Question) }
    else { None }
}

/// Can `c` continue an identifier.
pub open spec fn ident_char(c: char) -> bool {
    alphanumeric(c) || c == '_' || c == '-' || c == '?' || c == '!'
}

/// Where the identifier characters that start at `j` end.
pub open spec fn ident_end(s: Seq<char>, j: int) -> int
    decreases s.len() - j,
{
    if 0 <= j < s.len() && ident_char(s[j]) {
        ident_end(s, j + 1)
    } else {
        j
    }
}

/// Where a number that continues at `j` ends: digits, and one dot unless
/// `dot` says that one was already taken.
pub open spec fn number_end(s: Seq<char>, j: int, dot: bool) -> int
    decreases s.len() - j,
{
    if 0 <= j < s.len() && (is_decimal_digit(s[j]) || (s[j] == '.' && !dot)) {
        number_end(s, j + 1, dot || s[j] == '.')
    } else {
        j
    }
}

/// Where the body of a string literal that starts at `j` ends: at the next
/// `"` or at the end of the input.
pub open spec fn string_end(s: Seq<char>, j: int) -> int
    decreases s.len() - j,
{
    if 0 <= j < s.len() && s[j] != '"' {
        string_end(s, j + 1)
    } else {
        j
    }
}

/// The value of a sequence of decimal digits.
pub open spec fn digits_value(d: Seq<char>) -> nat
    decreases d.len(),
{
    if d.len() == 0 {
        0
    } else {
        digits_value(d.drop_last()) * 10 + ((d.last() as int - '0' as int) as nat)
    }
}

pub proof fn lemma_ident_end(s: Seq<char>, j: int)
    requires
        0 <= j,
    ensures
        j <= ident_end(s, j),
        ident_end(s, j) <= if j <= s.len() { s.len() as int } else { j },
    decreases s.len() - j,
{
    if 0 <= j < s.len() && ident_char(s[j]) {
        lemma_ident_end(s, j + 1);
    }
}

pub proof fn lemma_number_end(s: Seq<char>, j: int, dot: bool)
    requires
        0 <= j,
    ensures
        j <= number_end(s, j, dot),
        number_end(s, j, dot) <= if j <= s.len() { s.len() as int } else { j },
    decreases s.len() - j,
{
    if 0 <= j < s.len() && (is_decimal_digit(s[j]) || (s[j] == '.' && !dot)) {
        lemma_number_end(s, j + 1, dot || s[j] == '.');
    }
}

pub proof fn lemma_string_end(s: Seq<char>, j: int)
    requires
        0 <= j,
    ensures
        j <= string_end(s, j),
        string_end(s, j) <= if j <= s.len() { s.len() as int } else { j },
        string_end(s, j) < s.len() ==> s[string_end(s, j)] == '"',
    decreases s.len() - j,
{
    if 0 <= j < s.len() && s[j] != '"' {
        lemma_string_end(s, j + 1);
    }
}

/// The token of a number text `t` that starts with the digit `c`: the
/// number, unless `t` has no dot and its value does not fit in an `i64`, in
/// which case the digit alone is an unknown token.
pub open spec fn number_token(t: Seq<char>, c: char) -> TokenView {
    if t.contains('.') || digits_value(t) <= i64::MAX {
        TokenView::Number(t)
    } else {
        TokenView::Unknown(c)
    }
}

/// Where a scan that started after `i` stopped, `e`; taken as `i + 1` where
/// `e` lies outside `i + 1 ..= s.len()`, which no scan does (see
/// `lemma_ident_end` and its siblings).
pub open spec fn scan_stop(s: Seq<char>, i: int, e: int) -> int {
    if i < e <= s.len() { e } else { i + 1 }
}

/// The token that starts at position `i` of `s` (none for whitespace) and
/// the position after it.
pub open spec fn lex_token(s: Seq<char>, i: int) -> (Option<TokenView>, int) {
    let c = s[i];
    if unicode_whitespace(c) {
        (None, i + 1)
    } else if punct_token(c) is Some {
        (punct_token(c), i + 1)
    } else if alphabetic(c) || c == '_' {
        let e = scan_stop(s, i, ident_end(s, i + 1));
        (Some(TokenView::Symbol(s.subrange(i, e))), e)
    } else if is_decimal_digit(c) {
        let e = scan_stop(s, i, number_end(s, i + 1, false));
        (Some(number_token(s.subrange(i, e), c)), e)
    } else if c == '"' {
        let e = scan_stop(s, i, string_end(s, i + 1));
        (Some(TokenView::Str(s.subrange(i + 1, e))), if e < s.len() { e + 1 } else { e })
    } else {
        (Some(TokenView::Unknown(c)), i + 1)
    }
}

/// Every token, and every whitespace character, moves the position on, and
/// never past the end: the guards in `scan_stop` and `lex_from` always hold.
pub proof fn lemma_lex_token_advances(s: Seq<char>, i: int)
    requires
        0 <= i < s.len(),
    ensures
        i < lex_token(s, i).1 <= s.len(),
        i < ident_end(s, i + 1) ==> scan_stop(s, i, ident_end(s, i + 1)) == ident_end(s, i + 1),
        i < number_end(s, i + 1, false) ==> scan_stop(s, i, number_end(s, i + 1, false))
            == number_end(s, i + 1, false),
        scan_stop(s, i, string_end(s, i + 1)) == string_end(s, i + 1),
{
    lemma_ident_end(s, i + 1);
    lemma_number_end(s, i + 1, false);
    lemma_string_end(s, i + 1);
}

/// The tokens of `s` from position `i` on, without the final end-of-input
/// token.
pub open spec fn lex_from(s: Seq<char>, i: int) -> Seq<TokenView>
    decreases s.len() - i,
{
    if i < 0 || i >= s.len() {
        Seq::empty()
    } else {
        let next = lex_token(s, i).1;
        if i < next <= s.len() {
            match lex_token(s, i).0 {
                Some(t) => seq![t] + lex_from(s, next),
                None => lex_from(s, next),
            }
        } else {
            Seq::empty()
        }
    }
}

/// The line and column reached from `(line, column)` after reading `s`: a
/// newline moves to column 1 of the next line, any other character one
/// column on.
pub open spec fn location_after(line: nat, column: nat, s: Seq<char>) -> (nat, nat)
    decreases s.len(),
{
    if s.len() == 0 {
        (line, column)
    } else {
        let (l, c) = location_after(line, column, s.drop_last());
        if s.last() == '\n' {
            (l + 1, 1)
        } else {
            (l, c + 1)
        }
    }
}

/// Reading `a` and then `b` reaches where reading `a + b` does.
pub proof fn lemma_location_after_concat(line: nat, column: nat, a: Seq<char>, b: Seq<char>)
    ensures
        location_after(line, column, a + b) == location_after(
            location_after(line, column, a).0,
            location_after(line, column, a).1,
            b,
        ),
    decreases b.len(),
{
    if b.len() == 0 {
        assert(a + b =~= a);
    } else {
        lemma_location_after_concat(line, column, a, b.drop_last());
        assert((a + b).drop_last() =~= a + b.drop_last());
    }
}

/// Splits source text into tokens.
pub struct Tokenizer {
    input: String,
    position: usize,
    line: usize,
    column: usize,
    file: &'static str,
}

impl Tokenizer {
    /// The text being tokenized.
    pub closed spec fn input_spec(&self) -> Seq<char> {
        self.input@
    }

    /// The number of characters read so far.
    pub closed spec fn position_spec(&self) -> nat {
        self.position as nat
    }

    /// The current line.
    pub closed spec fn line_spec(&self) -> nat {
        self.line as nat
    }

    /// The current column.
    pub closed spec fn column_spec(&self) -> nat {
        self.column as nat
    }

    /// The name of the file being read.
    pub closed spec fn file_spec(&self) -> &'static str {
        self.file
    }

    /// The position lies within the input, and the line and column cannot
    /// have outgrown it.
    pub closed spec fn wf(&self) -> bool {
        &&& self.position <= self.input@.len()
        &&& self.input@.len() < usize::MAX
        &&& 1 <= self.line <= self.position + 1
        &&& 1 <= self.column <= self.position + 1
    }

    /// `next` has read the input of `self` up to position `p`, keeping track
    /// of lines and columns.
    pub open spec fn moved_to(self, next: Self, p: int) -> bool {
        &&& next.input_spec() == self.input_spec()
        &&& next.file_spec() == self.file_spec()
        &&& next.wf()
        &&& next.position_spec() == p
        &&& (next.line_spec(), next.column_spec()) == location_after(
            self.line_spec(),
            self.column_spec(),
            self.input_spec().subrange(self.position_spec() as int, p),
        )
    }

    /// A tokenizer at the start (line 1, column 1) of `input`, read from
    /// `file`.
    pub fn new(input: String, file: &'static str) -> (r: Self)
        requires
            input@.len() < usize::MAX,
        ensures
            r.wf(),
            r.input_spec() == input@,
            r.file_spec() == file,
            r.position_spec() == 0,
            r.line_spec() == 1,
            r.column_spec() == 1,
    {
        Tokenizer { input, position: 0, line: 1, column: 1, file }
    }

    /// The next character, if any is left.
    fn peek(&self) -> (r: Option<char>)
        requires
            self.wf(),
        ensures
            self.position < self.input@.len() ==> r == Some(self.input@[self.position as int]),
            self.position >= self.input@.len() ==> r is None,
    {
        let n = self.input.as_str().unicode_len();
        if self.position < n {
            Some(self.input.as_str().get_char(self.position))
        } else {
            None
        }
    }

    /// Reads the next character, if any is left.
    fn consume(&mut self) -> (r: Option<char>)
        requires
            old(self).wf(),
        ensures
            old(self).position < old(self).input@.len() ==> r == Some(
                old(self).input@[old(self).position as int],
            ) && old(self).moved_to(*final(self), old(self).position + 1),
            old(self).position >= old(self).input@.len() ==> r is None && *final(self) == *old(
                self,
            ),
    {
        match self.peek() {
            None => None,
            Some(ch) => {
                let ghost s = self.input@;
                let ghost p = self.position as int;
                self.position = self.position + 1;
                if ch == '\n' {
                    self.line = self.line + 1;
                    self.column = 1;
                } else {
                    self.column = self.column + 1;
                }
                proof {
                    let sub = s.subrange(p, p + 1);
                    assert(sub.drop_last() =~= Seq::<char>::empty());
                    assert(sub.last() == ch);
                    let l0 = old(self).line as nat;
                    let c0 = old(self).column as nat;
                    assert(location_after(l0, c0, Seq::<char>::empty()) == (l0, c0));
                    assert(location_after(l0, c0, sub) == (if ch == '\n' {
                        (l0 + 1, 1nat)
                    } else {
                        (l0, c0 + 1)
                    }));
                }
                Some(ch)
            },
        }
    }

    /// Reads whitespace up to the next other character or the end.
    fn skip_whitespace(&mut self)
        requires
            old(self).wf(),
        ensures
            old(self).moved_to(*final(self), final(self).position_spec() as int),
            old(self).position_spec() <= final(self).position_spec(),
            forall|k: int|
                old(self).position_spec() <= k < final(self).position_spec() ==> unicode_whitespace(
                    old(self).input_spec()[k],
                ),
            final(self).position_spec() < old(self).input_spec().len() ==> !unicode_whitespace(
                old(self).input_spec()[final(self).position_spec() as int],
            ),
    {
        let ghost start = *self;
        proof {
            assert(start.input_spec().subrange(start.position as int, start.position as int)
                =~= Seq::<char>::empty());
        }
        loop
            invariant
                start.wf(),
                start.moved_to(*self, self.position as int),
                start.position <= self.position,
                forall|k: int|
                    start.position <= k < self.position ==> unicode_whitespace(start.input@[k]),
            ensures
                start.moved_to(*self, self.position as int),
                start.position <= self.position,
                forall|k: int|
                    start.position <= k < self.position ==> unicode_whitespace(start.input@[k]),
                self.position < start.input@.len() ==> !unicode_whitespace(
                    start.input@[self.position as int],
                ),
            decreases self.input@.len() - self.position,
        {
            match self.peek() {
                Some(ch) => {
                    if char_is_whitespace(ch) {
                        let ghost mid = *self;
                        self.consume();
                        proof {
                            lemma_moved_trans(start, mid, *self, mid.position as int, self.position as int);
                        }
                    } else {
                        break;
                    }
                },
                None => {
                    break;
                },
            }
        }
    }

    /// Reads identifier characters up to the next other character or the
    /// end, and gives back the text read.
    fn scan_identifier(&mut self) -> (r: String)
        requires
            old(self).wf(),
        ensures
            final(self).position_spec() == ident_end(
                old(self).input_spec(),
                old(self).position_spec() as int,
            ),
            old(self).moved_to(*final(self), final(self).position_spec() as int),
            old(self).position_spec() <= final(self).position_spec(),
            r@ == old(self).input_spec().subrange(
                old(self).position_spec() as int,
                final(self).position_spec() as int,
            ),
    {
        let ghost start = *self;
        proof {
            assert(start.input_spec().subrange(start.position as int, start.position as int)
                =~= Seq::<char>::empty());
        }
        let mut text = String::new();
        loop
            invariant
                start.wf(),
                start.moved_to(*self, self.position as int),
                start.position <= self.position,
                ident_end(start.input@, start.position as int) == ident_end(
                    start.input@,
                    self.position as int,
                ),
                text@ == start.input@.subrange(start.position as int, self.position as int),
            ensures
                start.moved_to(*self, self.position as int),
                start.position <= self.position,
                self.position == ident_end(start.input@, start.position as int),
                text@ == start.input@.subrange(start.position as int, self.position as int),
            decreases self.input@.len() - self.position,
        {
            match self.peek() {
                Some(ch) => {
                    if char_is_alphanumeric(ch) || ch == '_' || ch == '-' || ch == '?' || ch == '!' {
                        let ghost mid = *self;
                        self.consume();
                        proof {
                            lemma_moved_trans(start, mid, *self, mid.position as int, self.position as int);
                        }
                        crate::text::push_char(&mut text, ch);
                        assert(text@ =~= start.input@.subrange(start.position as int, self.position as int));
                    } else {
                        break;
                    }
                },
                None => {
                    break;
                },
            }
        }
        text
    }

    /// Reads the rest of a number: digits, and one dot unless `dot` says
    /// that one was read already. Gives back the text read and whether a dot
    /// was read.
    fn scan_number(&mut self, dot: bool) -> (r: (String, bool))
        requires
            old(self).wf(),
        ensures
            final(self).position_spec() == number_end(
                old(self).input_spec(),
                old(self).position_spec() as int,
                dot,
            ),
            old(self).moved_to(*final(self), final(self).position_spec() as int),
            old(self).position_spec() <= final(self).position_spec(),
            r.0@ == old(self).input_spec().subrange(
                old(self).position_spec() as int,
                final(self).position_spec() as int,
            ),
            r.1 == (dot || r.0@.contains('.')),
            forall|k: int| 0 <= k < r.0@.len() ==> is_decimal_digit(r.0@[k]) || r.0@[k] == '.',
    {
        let ghost start = *self;
        proof {
            assert(start.input_spec().subrange(start.position as int, start.position as int)
                =~= Seq::<char>::empty());
        }
        let mut text = String::new();
        let mut seen = dot;
        loop
            invariant
                start.wf(),
                start.moved_to(*self, self.position as int),
                start.position <= self.position,
                number_end(start.input@, start.position as int, dot) == number_end(
                    start.input@,
                    self.position as int,
                    seen,
                ),
                text@ == start.input@.subrange(start.position as int, self.position as int),
                seen == (dot || text@.contains('.')),
                forall|k: int| 0 <= k < text@.len() ==> is_decimal_digit(text@[k]) || text@[k] == '.',
            ensures
                start.moved_to(*self, self.position as int),
                start.position <= self.position,
                self.position == number_end(start.input@, start.position as int, dot),
                text@ == start.input@.subrange(start.position as int, self.position as int),
                seen == (dot || text@.contains('.')),
                forall|k: int| 0 <= k < text@.len() ==> is_decimal_digit(text@[k]) || text@[k] == '.',
            decreases self.input@.len() - self.position,
        {
            match self.peek() {
                Some(ch) => {
                    if char_is_decimal_digit(ch) || (ch == '.' && !seen) {
                        let ghost mid = *self;
                        let ghost old_text = text@;
                        self.consume();
                        proof {
                            lemma_moved_trans(start, mid, *self, mid.position as int, self.position as int);
                        }
                        crate::text::push_char(&mut text, ch);
                        proof {
                            assert(text@ == old_text.push(ch));
                            assert(text@.contains('.') == (old_text.contains('.') || ch == '.')) by {
                                if ch == '.' {
                                    assert(text@[text@.len() - 1] == '.');
                                }
                                if old_text.contains('.') {
                                    let k = choose|k: int| 0 <= k < old_text.len() && old_text[k] == '.';
                                    assert(text@[k] == '.');
                                }
                                if text@.contains('.') && ch != '.' {
                                    let k = choose|k: int| 0 <= k < text@.len() && text@[k] == '.';
                                    assert(old_text[k] == '.');
                                }
                            }
                        }
                        if ch == '.' {
                            seen = true;
                        }
                        assert(text@ =~= start.input@.subrange(start.position as int, self.position as int));
                    } else {
                        break;
                    }
                },
                None => {
                    break;
                },
            }
        }
        (text, seen)
    }

    /// Reads the body of a string literal up to the next `"` or the end, and
    /// gives back the text read.
    fn scan_string_body(&mut self) -> (r: String)
        requires
            old(self).wf(),
        ensures
            final(self).position_spec() == string_end(
                old(self).input_spec(),
                old(self).position_spec() as int,
            ),
            old(self).moved_to(*final(self), final(self).position_spec() as int),
            old(self).position_spec() <= final(self).position_spec(),
            r@ == old(self).input_spec().subrange(
                old(self).position_spec() as int,
                final(self).position_spec() as int,
            ),
    {
        let ghost start = *self;
        proof {
            assert(start.input_spec().subrange(start.position as int, start.position as int)
                =~= Seq::<char>::empty());
        }
        let mut text = String::new();
        loop
            invariant
                start.wf(),
                start.moved_to(*self, self.position as int),
                start.position <= self.position,
                string_end(start.input@, start.position as int) == string_end(
                    start.input@,
                    self.position as int,
                ),
                text@ == start.input@.subrange(start.position as int, self.position as int),
            ensures
                start.moved_to(*self, self.position as int),
                start.position <= self.position,
                self.position == string_end(start.input@, start.position as int),
                text@ == start.input@.subrange(start.position as int, self.position as int),
            decreases self.input@.len() - self.position,
        {
            match self.peek() {
                Some(ch) => {
                    if ch != '"' {
                        let ghost mid = *self;
                        self.consume();
                        proof {
                            lemma_moved_trans(start, mid, *self, mid.position as int, self.position as int);
                        }
                        crate::text::push_char(&mut text, ch);
                        assert(text@ =~= start.input@.subrange(start.position as int, self.position as int));
                    } else {
                        break;
                    }
                },
                None => {
                    break;
                },
            }
        }
        text
    }

    /// Splits the rest of the input into tokens, followed by an end-of-input
    /// token. A whole number that does not fit in an `i64` becomes an
    /// `Unknown` token holding its first digit.
    pub fn tokenize(&mut self) -> (r: Vec<Token>)
        requires
            old(self).wf(),
        ensures
            token_views(r@) == lex_from(old(self).input_spec(), old(self).position_spec() as int).push(
                TokenView::Eof,
            ),
            old(self).moved_to(*final(self), old(self).input_spec().len() as int),
    {
        let ghost start = *self;
        let ghost s = self.input@;
        proof {
            assert(s.subrange(start.position as int, start.position as int) =~= Seq::<char>::empty());
        }
        let mut tokens: Vec<Token> = Vec::new();
        loop
            invariant
                start.wf(),
                s == start.input@,
                start.moved_to(*self, self.position as int),
                start.position <= self.position,
                token_views(tokens@) + lex_from(s, self.position as int) == lex_from(
                    s,
                    start.position as int,
                ),
            ensures
                start.moved_to(*self, self.position as int),
                start.position <= self.position,
                self.position == s.len(),
                token_views(tokens@) == lex_from(s, start.position as int),
            decreases s.len() - self.position,
        {
            let ghost p = self.position as int;
            let ghost before = *self;
            let ghost tv = token_views(tokens@);
            let c = match self.peek() {
                Some(c) => c,
                None => {
                    assert(lex_from(s, p) =~= Seq::<TokenView>::empty());
                    assert(tv + Seq::<TokenView>::empty() =~= tv);
                    break;
                },
            };
            if char_is_whitespace(c) {
                self.skip_whitespace();
                proof {
                    lemma_moved_trans(start, before, *self, p, self.position as int);
                    lemma_lex_skips_whitespace(s, p, self.position as int);
                }
            } else {
                let ghost rest = lex_from(s, p);
                let punct = single_char_token(c);
                match punct {
                    Some(t) => {
                        self.consume();
                        proof {
                            lemma_moved_trans(start, before, *self, p, self.position as int);
                            lemma_token_views_push(tokens@, t);
                        }
                        tokens.push(t);
                        assert(token_views(tokens@) + lex_from(s, self.position as int) =~= tv + rest);
                    },
                    None => {
                        if char_is_alphabetic(c) || c == '_' {
                            self.consume();
                            let ghost mid = *self;
                            let rest_text = self.scan_identifier();
                            proof {
                                lemma_moved_trans(start, before, mid, p, p + 1);
                                lemma_moved_trans(start, mid, *self, p + 1, self.position as int);
                            }
                            let mut ident = String::new();
                            crate::text::push_char(&mut ident, c);
                            ident.append(rest_text.as_str());
                            assert(ident@ =~= s.subrange(p, self.position as int));
                            proof {
                                lemma_token_views_push(tokens@, Token::Symbol(ident));
                            }
                            tokens.push(Token::Symbol(ident));
                            assert(token_views(tokens@) + lex_from(s, self.position as int) =~= tv + rest);
                        } else if char_is_decimal_digit(c) {
                            self.consume();
                            let ghost mid = *self;
                            let (digits, is_float) = self.scan_number(false);
                            proof {
                                lemma_moved_trans(start, before, mid, p, p + 1);
                                lemma_moved_trans(start, mid, *self, p + 1, self.position as int);
                            }
                            let mut text = String::new();
                            crate::text::push_char(&mut text, c);
                            text.append(digits.as_str());
                            proof {
                                assert(text@ =~= s.subrange(p, self.position as int));
                                assert(text@.contains('.') == digits@.contains('.')) by {
                                    if digits@.contains('.') {
                                        let k = choose|k: int| 0 <= k < digits@.len() && digits@[k] == '.';
                                        assert(text@[k + 1] == '.');
                                    }
                                    if text@.contains('.') {
                                        let k = choose|k: int| 0 <= k < text@.len() && text@[k] == '.';
                                        assert(k != 0);
                                        assert(digits@[k - 1] == '.');
                                    }
                                }
                            }
                            proof {
                                if !is_float {
                                    assert forall|k: int| 0 <= k < text@.len() implies is_decimal_digit(text@[k]) by {
                                        if k > 0 {
                                            assert(text@[k] == digits@[k - 1]);
                                            if digits@[k - 1] == '.' {
                                                assert(digits@.contains('.'));
                                            }
                                        }
                                    }
                                }
                            }
                            let t = if is_float || fits_i64(&text) {
                                Token::Number(text)
                            } else {
                                Token::Unknown(c)
                            };
                            proof {
                                lemma_token_views_push(tokens@, t);
                            }
                            tokens.push(t);
                            assert(token_views(tokens@) + lex_from(s, self.position as int) =~= tv + rest);
                        } else if c == '"' {
                            self.consume();
                            let ghost mid = *self;
                            let body = self.scan_string_body();
                            proof {
                                lemma_moved_trans(start, before, mid, p, p + 1);
                                lemma_moved_trans(start, mid, *self, p + 1, self.position as int);
                                lemma_string_end(s, p + 1);
                            }
                            let ghost mid2 = *self;
                            self.consume();
                            proof {
                                if mid2.position < s.len() {
                                    lemma_moved_trans(start, mid2, *self, mid2.position as int, self.position as int);
                                }
                                lemma_token_views_push(tokens@, Token::String(body));
                            }
                            tokens.push(Token::String(body));
                            assert(token_views(tokens@) + lex_from(s, self.position as int) =~= tv + rest);
                        } else {
                            assert(!unicode_whitespace(c) && punct_token(c) is None && !(alphabetic(c) || c == '_')
                                && !is_decimal_digit(c) && c != '"');
                            proof {
                                lemma_lex_unknown(s, p);
                            }
                            self.consume();
                            proof {
                                lemma_moved_trans(start, before, *self, p, self.position as int);
                                lemma_token_views_push(tokens@, Token::Unknown(c));
                            }
                            tokens.push(Token::Unknown(c));
                            assert(token_views(tokens@) + lex_from(s, self.position as int) =~= tv + rest);
                        }
                    },
                }
            }
        }
        proof {
            lemma_token_views_push(tokens@, Token::Eof);
        }
        tokens.push(Token::Eof);
        tokens
    }
}

/// Reading from `a` to `p` and then from there to `q` is reading from `a`
/// to `q`.
proof fn lemma_moved_trans(a: Tokenizer, b: Tokenizer, c: Tokenizer, p: int, q: int)
    requires
        a.moved_to(b, p),
        b.moved_to(c, q),
        a.position_spec() <= p <= q,
    ensures
        a.moved_to(c, q),
{
    let s = a.input_spec();
    lemma_location_after_concat(
        a.line_spec(),
        a.column_spec(),
        s.subrange(a.position_spec() as int, p),
        s.subrange(p, q),
    );
    assert(s.subrange(a.position_spec() as int, p) + s.subrange(p, q) =~= s.subrange(
        a.position_spec() as int,
        q,
    ));
}

/// A character that starts no token is an unknown token.
proof fn lemma_lex_unknown(s: Seq<char>, i: int)
    requires
        0 <= i < s.len(),
        !unicode_whitespace(s[i]),
        punct_token(s[i]) is None,
        !alphabetic(s[i]),
        s[i] != '_',
        !is_decimal_digit(s[i]),
        s[i] != '"',
    ensures
        lex_from(s, i) == seq![TokenView::Unknown(s[i])] + lex_from(s, i + 1),
{
}

/// Whitespace produces no token.
proof fn lemma_lex_skips_whitespace(s: Seq<char>, p: int, q: int)
    requires
        0 <= p <= q <= s.len(),
        forall|k: int| p <= k < q ==> unicode_whitespace(s[k]),
    ensures
        lex_from(s, p) == lex_from(s, q),
    decreases q - p,
{
    if p < q {
        lemma_lex_skips_whitespace(s, p + 1, q);
    }
}

/// The token of a single punctuation character.
fn single_char_token(c: char) -> (r: Option<Token>)
    ensures
        r is Some <==> punct_token(c) is Some,
        r matches Some(t) ==> t@ == punct_token(c)->0,
{
    match c {
        '(' => Some(Token::OpenParen),
        ')' => Some(Token::CloseParen),
        '[' => Some(Token::LeftBracket),
        ']' => Some(Token::RightBracket),
        '{' => Some(Token::LeftBrace),
        '}' => Some(Token::RightBrace),
        '.' => Some(Token::Dot),
        ',' => Some(Token::Comma),
        ';' => Some(Token::Semicolon),
        ':' => Some(Token::Colon),
        '\'' => Some(Token::Quote),
        '`' => Some(Token::Backtick),
        '+' => Some(Token::Plus),
        '-' => Some(Token::Minus),
        '*' => Some(Token::Star),
        '/' => Some(Token::Slash),
        '%' => Some(Token::Percent),
        '=' => Some(Token::Equals),
        '!' => Some(Token::Bang),
        '<' => Some(Token::Less),
        '>' => Some(Token::Greater),
        '&' => Some(Token::Ampersand),
        '|' => Some(Token::Pipe),
        '^' => Some(Token::Caret),
        '?' => Some(Token::Question),
        _ => None,
    }
}

/// Does the value of the decimal digits `d` fit in an `i64`.
pub fn fits_i64(d: &String) -> (r: bool)
    requires
        forall|k: int| 0 <= k < d@.len() ==> is_decimal_digit(d@[k]),
    ensures
        r == (digits_value(d@) <= i64::MAX),
{
    let n = d.as_str().unicode_len();
    let mut v: u64 = 0;
    let mut i: usize = 0;
    while i < n
        invariant
            n == d@.len(),
            i <= n,
            v == digits_value(d@.take(i as int)),
            v <= i64::MAX,
            forall|k: int| 0 <= k < d@.len() ==> is_decimal_digit(d@[k]),
        decreases n - i,
    {
        let c = d.as_str().get_char(i);
        let digit: u64 = (c as u32 - '0' as u32) as u64;
        assert(d@.take(i as int + 1).drop_last() =~= d@.take(i as int));
        if v > (9223372036854775807u64 - digit) / 10 {
            proof {
                lemma_digits_value_prefix(d@, i as int + 1);
            }
            return false;
        }
        v = v * 10 + digit;
        i = i + 1;
    }
    assert(d@.take(n as int) =~= d@);
    true
}

/// A longer prefix of digits has a value at least as large.
pub proof fn lemma_digits_value_prefix(d: Seq<char>, i: int)
    requires
        0 <= i <= d.len(),
        forall|k: int| 0 <= k < d.len() ==> is_decimal_digit(d[k]),
    ensures
        digits_value(d.take(i)) <= digits_value(d),
    decreases d.len() - i,
{
    if i < d.len() {
        lemma_digits_value_prefix(d, i + 1);
        assert(d.take(i + 1).drop_last() =~= d.take(i));
    } else {
        assert(d.take(i) =~= d);
    }
}

} // verus!
