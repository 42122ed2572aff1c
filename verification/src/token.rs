//! Tokens of the source language and their mathematical view.
use vstd::prelude::*;

verus! {

/// A token.
///
/// A number is carried as the decimal text it was written with.
#[derive(Debug, Clone, PartialEq)]
pub enum Token {
    /// `(`
    OpenParen,
    /// `)`
    CloseParen,
    /// `[`
    LeftBracket,
    /// `]`
    RightBracket,
    /// `{`
    LeftBrace,
    /// `}`
    RightBrace,
    /// `.`
    Dot,
    /// `,`
    Comma,
    /// `;`
    Semicolon,
    /// `:`
    Colon,
    /// `'`
    Quote,
    /// `` ` ``
    Backtick,
    /// `+`
    Plus,
    /// `-`
    Minus,
    /// `*`
    Star,
    /// `/`
    Slash,
    /// `%`
    Percent,
    /// `=`
    Equals,
    /// `!`
    Bang,
    /// `<`
    Less,
    /// `>`
    Greater,
    /// `&`
    Ampersand,
    /// `|`
    Pipe,
    /// `^`
    Caret,
    /// `?`
    Question,
    /// A name or operator.
    Symbol(String),
    /// A quoted symbol such as `'x` (without the quote).
    QuotedSymbol(String),
    /// A number, by its decimal text.
    Number(String),
    /// A string literal (without the quotes).
    String(String),
    /// `true` or `false`.
    Boolean(bool),
    /// `nil`.
    Nil,
    /// A character that starts no token.
    Unknown(char),
    /// The end of the input.
    Eof,
}

/// A token as a mathematical value: texts are sequences of characters.
pub enum TokenView {
    /// `(`
    OpenParen,
    /// `)`
    CloseParen,
    /// `[`
    LeftBracket,
    /// `]`
    RightBracket,
    /// `{`
    LeftBrace,
    /// `}`
    RightBrace,
    /// `.`
    Dot,
    /// `,`
    Comma,
    /// `;`
    Semicolon,
    /// `:`
    Colon,
    /// `'`
    Quote,
    /// `` ` ``
    Backtick,
    /// `+`
    Plus,
    /// `-`
    Minus,
    /// `*`
    Star,
    /// `/`
    Slash,
    /// `%`
    Percent,
    /// `=`
    Equals,
    /// `!`
    Bang,
    /// `<`
    Less,
    /// `>`
    Greater,
    /// `&`
    Ampersand,
    /// `|`
    Pipe,
    /// `^`
    Caret,
    /// `?`
    Question,
    /// A name or operator.
    Symbol(Seq<char>),
    /// A quoted symbol.
    QuotedSymbol(Seq<char>),
    /// A number, by its decimal text.
    Number(Seq<char>),
    /// A string literal.
    Str(Seq<char>),
    /// `true` or `false`.
    Boolean(bool),
    /// `nil`.
    Nil,
    /// A character that starts no token.
    Unknown(char),
    /// The end of the input.
    Eof,
}

impl View for Token {
    type V = TokenView;

    open spec fn view(&self) -> TokenView {
        match self {
            Token::OpenParen => TokenView::OpenParen,
            Token::CloseParen => TokenView::CloseParen,
            Token::LeftBracket => TokenView::LeftBracket,
            Token::RightBracket => TokenView::RightBracket,
            Token::LeftBrace => TokenView::LeftBrace,
            Token::RightBrace => TokenView::RightBrace,
            Token::Dot => TokenView::Dot,
            Token::Comma => TokenView::Comma,
            Token::Semicolon => TokenView::Semicolon,
            Token::Colon => TokenView::Colon,
            Token::Quote => TokenView::Quote,
            Token::Backtick => TokenView::Backtick,
            Token::Plus => TokenView::Plus,
            Token::Minus => TokenView::Minus,
            Token::Star => TokenView::Star,
            Token::Slash => TokenView::Slash,
            Token::Percent => TokenView::Percent,
            Token::Equals => TokenView::Equals,
            Token::Bang => TokenView::Bang,
            Token::Less => TokenView::Less,
            Token::Greater => TokenView::Greater,
            Token::Ampersand => TokenView::Ampersand,
            Token::Pipe => TokenView::Pipe,
            Token::Caret => TokenView::Caret,
            Token::Question => TokenView::Question,
            Token::Symbol(s) => TokenView::Symbol(s@),
            Token::QuotedSymbol(s) => TokenView::QuotedSymbol(s@),
            Token::Number(s) => TokenView::Number(s@),
            Token::String(s) => TokenView::Str(s@),
            Token::Boolean(b) => TokenView::Boolean(*b),
            Token::Nil => TokenView::Nil,
            Token::Unknown(c) => TokenView::Unknown(*c),
            Token::Eof => TokenView::Eof,
        }
    }
}

/// The views of a sequence of tokens.
pub open spec fn token_views(s: Seq<Token>) -> Seq<TokenView> {
    s.map_values(|t: Token| t@)
}

/// The views of `s` with `t` appended are those of `s` with `t`'s view
/// appended.
pub proof fn lemma_token_views_push(s: Seq<Token>, t: Token)
    ensures
        token_views(s.push(t)) == token_views(s).push(t@),
{
    assert(token_views(s.push(t)) =~= token_views(s).push(t@));
}

} // verus!
