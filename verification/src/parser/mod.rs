//! The parser: tokens in, a [`ast::Program`] out.
//!
//! [`Parser`] is a cursor over the tokens with one token of lookahead;
//! the functions of [`descent`] walk it by recursive descent, and
//! [`grammar`] says what they compute.

pub mod ast;
pub mod descent;
pub mod grammar;
pub mod progress;

use vstd::prelude::*;
use crate::error::Error;
use crate::lexer::lexemes;
use crate::lexer::token::{Lexeme, Location, Token, TokenValue, TokenView};
use ast::Program;
use descent::parsed;
use grammar::{advance, kind_at, parse_statements};

verus! {

/// Binding strengths, from the weakest to the strongest.
#[derive(Clone, Copy, Debug, PartialEq, Eq, Structural)]
pub enum Precedence {
    Lowest,
    Equals,
    LessGreater,
    Sum,
    Product,
    Prefix,
    Call,
}

/// What can be parsed from the cursor on.
pub trait Parse: Sized {
    /// Parses one value and leaves the cursor where the next one is looked
    /// for.
    fn parse(p: &mut Parser) -> Result<Self, Error>;
}

/// The token that is read at a position: behind the last token, an
/// end-of-input token with an empty span.
pub open spec fn token_at(source: Seq<Token>, pos: int) -> TokenView {
    if 0 <= pos < source.len() {
        source[pos]@
    } else {
        TokenView {
            value: Lexeme::EOF,
            loc: Location { line_start: 0, line_stop: 0, col_start: 0, col_stop: 0 },
        }
    }
}

/// A cursor over a run of tokens.
///
/// Behind the last token every position reads as end of input, so a run
/// that does not end with an end-of-input token is read as if it did.
#[derive(Debug)]
pub struct Parser {
    tokens: Vec<Token>,
    pos: usize,
    end: Token,
}

impl Parser {
    #[verifier::type_invariant]
    spec fn well_formed(&self) -> bool {
        self.pos <= self.tokens@.len() && self.end@ == token_at(Seq::empty(), 0)
    }

    /// The kinds of the tokens.
    pub closed spec fn tokens(&self) -> Seq<Lexeme> {
        lexemes(self.tokens@)
    }

    /// The tokens themselves.
    pub closed spec fn source(&self) -> Seq<Token> {
        self.tokens@
    }

    /// The cursor's position: the index of the current token.
    pub closed spec fn position(&self) -> int {
        self.pos as int
    }

    /// A cursor on the first of the given tokens.
    pub fn new(tokens: Vec<Token>) -> (p: Self)
        ensures
            p.source() == tokens@,
            p.tokens() == lexemes(tokens@),
            p.position() == 0,
    {
        Self { tokens, pos: 0, end: Token::new(TokenValue::EOF, Location::new(0, 0)) }
    }

    /// Parses the program that the tokens from the cursor on write.
    pub fn parse(&mut self) -> (r: Result<Program, Error>)
        ensures
            parsed(
                *old(self),
                *final(self),
                r,
                parse_statements(old(self).tokens(), old(self).position(), Seq::empty()),
            ),
    {
        Program::parse(self)
    }

    /// The current token.
    pub fn current_token(&self) -> (t: Token)
        ensures
            t@ == token_at(self.source(), self.position()),
            t.value@ == kind_at(self.tokens(), self.position()),
    {
        if self.pos < self.tokens.len() {
            self.tokens[self.pos].clone()
        } else {
            proof {
                use_type_invariant(self);
            }
            self.end.clone()
        }
    }

    /// Moves the cursor to the next token, if there is one, and returns the
    /// token that it then stands on.
    pub fn next_token(&mut self) -> (t: &Token)
        ensures
            final(self).source() == old(self).source(),
            final(self).tokens() == old(self).tokens(),
            final(self).position() == advance(old(self).tokens(), old(self).position()),
            t@ == token_at(old(self).source(), final(self).position()),
            t.value@ == kind_at(old(self).tokens(), final(self).position()),
    {
        proof {
            use_type_invariant(&*self);
        }
        if self.pos < self.tokens.len() {
            self.pos = self.pos + 1;
        }
        if self.pos < self.tokens.len() {
            &self.tokens[self.pos]
        } else {
            &self.end
        }
    }

    /// The token behind the current one; nothing where there are no tokens
    /// at all.
    pub fn peek_token(&self) -> (t: Option<&Token>)
        ensures
            t is None <==> self.source().len() == 0,
            t matches Some(t) ==> t@ == token_at(self.source(), self.position() + 1) && t.value@
                == kind_at(self.tokens(), self.position() + 1),
    {
        proof {
            use_type_invariant(self);
        }
        if self.tokens.len() == 0 {
            None
        } else if self.pos < self.tokens.len() && self.pos + 1 < self.tokens.len() {
            Some(&self.tokens[self.pos + 1])
        } else {
            Some(&self.end)
        }
    }

    /// The kind of the current token.
    pub(crate) fn current(&self) -> (v: &TokenValue)
        ensures
            v@ == kind_at(self.tokens(), self.position()),
    {
        proof {
            use_type_invariant(self);
        }
        if self.pos < self.tokens.len() {
            &self.tokens[self.pos].value
        } else {
            &self.end.value
        }
    }

    /// The kind of the token behind the current one.
    pub(crate) fn peek(&self) -> (v: &TokenValue)
        ensures
            v@ == kind_at(self.tokens(), self.position() + 1),
    {
        proof {
            use_type_invariant(self);
        }
        if self.pos < self.tokens.len() && self.pos + 1 < self.tokens.len() {
            &self.tokens[self.pos + 1].value
        } else {
            &self.end.value
        }
    }

    /// Whether the cursor stands behind the last token.
    pub(crate) fn at_end(&self) -> (b: bool)
        ensures
            b == !(0 <= self.position() < self.tokens().len()),
    {
        self.pos >= self.tokens.len()
    }

    /// Moves the cursor to the next token, if there is one.
    pub(crate) fn step(&mut self)
        ensures
            final(self).source() == old(self).source(),
            final(self).tokens() == old(self).tokens(),
            final(self).position() == advance(old(self).tokens(), old(self).position()),
    {
        proof {
            use_type_invariant(&*self);
        }
        if self.pos < self.tokens.len() {
            self.pos = self.pos + 1;
        }
    }
}

} // verus!
