//! Tokens, their kinds and their source spans.

use vstd::prelude::*;
use vstd::string::*;
use crate::text::{decimal_text, join, push_integer};

verus! {

/// Where a token stands in the source: the line and column at which it
/// starts and stops.
#[derive(Clone, Copy, Debug, PartialEq, Eq, Structural)]
pub struct Location {
    pub line_start: i32,
    pub line_stop: i32,
    pub col_start: i32,
    pub col_stop: i32,
}

impl Location {
    /// A span that starts at the given line and column and has no end yet.
    pub fn new(line_start: i32, col_start: i32) -> (loc: Self)
        ensures
            loc == (Location { line_start, line_stop: 0, col_start, col_stop: 0 }),
    {
        Self { line_start, line_stop: 0, col_start, col_stop: 0 }
    }

    /// The span with the same start and the given end.
    pub open spec fn stopped(self, line_stop: i32, col_stop: i32) -> Location {
        Location { line_start: self.line_start, line_stop, col_start: self.col_start, col_stop }
    }

    /// The span from nowhere to the given end: the one that the lexer gives
    /// its tokens.
    pub open spec fn ending(line_stop: i32, col_stop: i32) -> Location {
        Location { line_start: 0, line_stop, col_start: 0, col_stop }
    }

    /// How the span is shown: start line, stop line, start column and stop
    /// column.
    pub open spec fn text(self) -> Seq<char> {
        decimal_text(self.line_start as int) + ":"@ + decimal_text(self.line_stop as int) + ", "@
            + decimal_text(self.col_start as int) + ":"@ + decimal_text(self.col_stop as int)
    }

    /// The span as text.
    pub fn to_string(&self) -> (s: String)
        ensures
            s@ == self.text(),
    {
        let mut s = String::new();
        push_integer(&mut s, self.line_start as i64);
        s.append(":");
        push_integer(&mut s, self.line_stop as i64);
        s.append(", ");
        push_integer(&mut s, self.col_start as i64);
        s.append(":");
        push_integer(&mut s, self.col_stop as i64);
        assert(s@ =~= self.text());
        s
    }

    /// The same start, with the given end.
    pub fn stop(&self, line_stop: i32, col_stop: i32) -> (loc: Self)
        ensures
            loc == self.stopped(line_stop, col_stop),
    {
        Self { line_start: self.line_start, line_stop, col_start: self.col_start, col_stop }
    }
}

/// The kind of a token, with the text it carries where it carries any.
#[derive(Debug, PartialEq, Eq)]
pub enum TokenValue {
    EOF,
    Semicolon,
    Newline,
    LeftParen,
    RightParen,
    LeftBracket,
    RightBracket,
    BlockStart,
    BlockEnd,
    If,
    Elif,
    Else,
    Assign,
    Equal,
    Plus,
    Minus,
    Asterisk,
    Slash,
    Bang,
    And,
    Or,
    Integer(String),
    Float(String),
    String(String),
    True,
    False,
    Ident(String),
    Illegal(String),
}

/// The mathematical form of a [`TokenValue`].
pub enum Lexeme {
    EOF,
    Semicolon,
    Newline,
    LeftParen,
    RightParen,
    LeftBracket,
    RightBracket,
    BlockStart,
    BlockEnd,
    If,
    Elif,
    Else,
    Assign,
    Equal,
    Plus,
    Minus,
    Asterisk,
    Slash,
    Bang,
    And,
    Or,
    Integer(Seq<char>),
    Float(Seq<char>),
    String(Seq<char>),
    True,
    False,
    Ident(Seq<char>),
    Illegal(Seq<char>),
}

impl View for TokenValue {
    type V = Lexeme;

    open spec fn view(&self) -> Lexeme {
        match self {
            TokenValue::EOF => Lexeme::EOF,
            TokenValue::Semicolon => Lexeme::Semicolon,
            TokenValue::Newline => Lexeme::Newline,
            TokenValue::LeftParen => Lexeme::LeftParen,
            TokenValue::RightParen => Lexeme::RightParen,
            TokenValue::LeftBracket => Lexeme::LeftBracket,
            TokenValue::RightBracket => Lexeme::RightBracket,
            TokenValue::BlockStart => Lexeme::BlockStart,
            TokenValue::BlockEnd => Lexeme::BlockEnd,
            TokenValue::If => Lexeme::If,
            TokenValue::Elif => Lexeme::Elif,
            TokenValue::Else => Lexeme::Else,
            TokenValue::Assign => Lexeme::Assign,
            TokenValue::Equal => Lexeme::Equal,
            TokenValue::Plus => Lexeme::Plus,
            TokenValue::Minus => Lexeme::Minus,
            TokenValue::Asterisk => Lexeme::Asterisk,
            TokenValue::Slash => Lexeme::Slash,
            TokenValue::Bang => Lexeme::Bang,
            TokenValue::And => Lexeme::And,
            TokenValue::Or => Lexeme::Or,
            TokenValue::Integer(v) => Lexeme::Integer(v@),
            TokenValue::Float(v) => Lexeme::Float(v@),
            TokenValue::String(v) => Lexeme::String(v@),
            TokenValue::True => Lexeme::True,
            TokenValue::False => Lexeme::False,
            TokenValue::Ident(v) => Lexeme::Ident(v@),
            TokenValue::Illegal(v) => Lexeme::Illegal(v@),
        }
    }
}

impl Clone for TokenValue {
    fn clone(&self) -> (r: Self)
        ensures
            r@ == self@,
    {
        match self {
            TokenValue::EOF => TokenValue::EOF,
            TokenValue::Semicolon => TokenValue::Semicolon,
            TokenValue::Newline => TokenValue::Newline,
            TokenValue::LeftParen => TokenValue::LeftParen,
            TokenValue::RightParen => TokenValue::RightParen,
            TokenValue::LeftBracket => TokenValue::LeftBracket,
            TokenValue::RightBracket => TokenValue::RightBracket,
            TokenValue::BlockStart => TokenValue::BlockStart,
            TokenValue::BlockEnd => TokenValue::BlockEnd,
            TokenValue::If => TokenValue::If,
            TokenValue::Elif => TokenValue::Elif,
            TokenValue::Else => TokenValue::Else,
            TokenValue::Assign => TokenValue::Assign,
            TokenValue::Equal => TokenValue::Equal,
            TokenValue::Plus => TokenValue::Plus,
            TokenValue::Minus => TokenValue::Minus,
            TokenValue::Asterisk => TokenValue::Asterisk,
            TokenValue::Slash => TokenValue::Slash,
            TokenValue::Bang => TokenValue::Bang,
            TokenValue::And => TokenValue::And,
            TokenValue::Or => TokenValue::Or,
            TokenValue::Integer(v) => TokenValue::Integer(v.clone()),
            TokenValue::Float(v) => TokenValue::Float(v.clone()),
            TokenValue::String(v) => TokenValue::String(v.clone()),
            TokenValue::True => TokenValue::True,
            TokenValue::False => TokenValue::False,
            TokenValue::Ident(v) => TokenValue::Ident(v.clone()),
            TokenValue::Illegal(v) => TokenValue::Illegal(v.clone()),
        }
    }
}

/// How a token kind is shown in messages.
pub open spec fn lexeme_text(l: Lexeme) -> Seq<char> {
    match l {
        Lexeme::EOF => "eof"@,
        Lexeme::Semicolon => "semicolon"@,
        Lexeme::Newline => "newline"@,
        Lexeme::LeftParen => "left paren"@,
        Lexeme::RightParen => "right paren"@,
        Lexeme::LeftBracket => "left bracket"@,
        Lexeme::RightBracket => "right bracket"@,
        Lexeme::BlockStart => "block start"@,
        Lexeme::BlockEnd => "block end"@,
        Lexeme::If => "if"@,
        Lexeme::Elif => "elif"@,
        Lexeme::Else => "else"@,
        Lexeme::Assign => "assign"@,
        Lexeme::Equal => "equal"@,
        Lexeme::Plus => "plus"@,
        Lexeme::Minus => "minus"@,
        Lexeme::Asterisk => "asterisk"@,
        Lexeme::Slash => "slash"@,
        Lexeme::Bang => "bang"@,
        Lexeme::And => "and"@,
        Lexeme::Or => "or"@,
        Lexeme::Integer(v) => "integer: "@ + v,
        Lexeme::Float(v) => "float: "@ + v,
        Lexeme::String(v) => "string: "@ + v,
        Lexeme::True => "boolean: true"@,
        Lexeme::False => "boolean: false"@,
        Lexeme::Ident(v) => "ident: "@ + v,
        Lexeme::Illegal(v) => "illegal: "@ + v,
    }
}

impl TokenValue {
    /// The kind as shown in messages.
    pub fn to_string(&self) -> (s: String)
        ensures
            s@ == lexeme_text(self@),
    {
        match self {
            TokenValue::EOF => String::from_str("eof"),
            TokenValue::Semicolon => String::from_str("semicolon"),
            TokenValue::Newline => String::from_str("newline"),
            TokenValue::LeftParen => String::from_str("left paren"),
            TokenValue::RightParen => String::from_str("right paren"),
            TokenValue::LeftBracket => String::from_str("left bracket"),
            TokenValue::RightBracket => String::from_str("right bracket"),
            TokenValue::BlockStart => String::from_str("block start"),
            TokenValue::BlockEnd => String::from_str("block end"),
            TokenValue::If => String::from_str("if"),
            TokenValue::Elif => String::from_str("elif"),
            TokenValue::Else => String::from_str("else"),
            TokenValue::Assign => String::from_str("assign"),
            TokenValue::Equal => String::from_str("equal"),
            TokenValue::Plus => String::from_str("plus"),
            TokenValue::Minus => String::from_str("minus"),
            TokenValue::Asterisk => String::from_str("asterisk"),
            TokenValue::Slash => String::from_str("slash"),
            TokenValue::Bang => String::from_str("bang"),
            TokenValue::And => String::from_str("and"),
            TokenValue::Or => String::from_str("or"),
            TokenValue::Integer(v) => join("integer: ", v.as_str()),
            TokenValue::Float(v) => join("float: ", v.as_str()),
            TokenValue::String(v) => join("string: ", v.as_str()),
            TokenValue::True => String::from_str("boolean: true"),
            TokenValue::False => String::from_str("boolean: false"),
            TokenValue::Ident(v) => join("ident: ", v.as_str()),
            TokenValue::Illegal(v) => join("illegal: ", v.as_str()),
        }
    }
}

/// A token: its kind and where it stands.
#[derive(Debug)]
pub struct Token {
    pub value: TokenValue,
    pub loc: Location,
}

/// The mathematical form of a [`Token`].
pub struct TokenView {
    pub value: Lexeme,
    pub loc: Location,
}

impl View for Token {
    type V = TokenView;

    open spec fn view(&self) -> TokenView {
        TokenView { value: self.value@, loc: self.loc }
    }
}

impl Clone for Token {
    fn clone(&self) -> (r: Self)
        ensures
            r@ == self@,
    {
        Token { value: self.value.clone(), loc: self.loc }
    }
}

impl Token {
    /// The token as text: its kind and its span, in brackets.
    pub fn to_string(&self) -> (s: String)
        ensures
            s@ == "Token("@ + lexeme_text(self.value@) + ", "@ + self.loc.text() + ")"@,
    {
        let mut s = String::from_str("Token(");
        let value = self.value.to_string();
        s.append(value.as_str());
        s.append(", ");
        let loc = self.loc.to_string();
        s.append(loc.as_str());
        s.append(")");
        s
    }

    /// A token of the given kind at the given place.
    pub fn new(value: TokenValue, loc: Location) -> (t: Self)
        ensures
            t == (Token { value, loc }),
    {
        Self { value, loc }
    }
}

} // verus!
