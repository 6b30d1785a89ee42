//! The lexer: source text in, tokens out.
//!
//! Lexing never fails. What cannot be a token becomes an
//! [`TokenValue::Illegal`] token in the stream, and the stream always ends
//! with [`TokenValue::EOF`].

pub mod model;
pub mod token;

use vstd::prelude::*;
use vstd::string::*;
use crate::text::{chars_of, reads};
use model::{
    is_digit, is_ident_char, lemma_step_advances, lex_from, line_behind, line_end, scan_ident,
    scan_number, scan_string, span_at, step, unexpected, word,
};
use token::{Lexeme, Location, Token, TokenValue};

verus! {

/// The kinds of a run of tokens.
pub open spec fn lexemes(ts: Seq<Token>) -> Seq<Lexeme> {
    Seq::new(ts.len(), |i: int| ts[i].value@)
}

/// A cursor over a source text.
#[derive(Debug)]
pub struct Lexer {
    input: Vec<char>,
    pos: usize,
    line: i32,
    col: i32,
}

impl Lexer {
    /// The text being read.
    pub closed spec fn text(&self) -> Seq<char> {
        self.input@
    }

    /// How many characters have been consumed.
    pub closed spec fn position(&self) -> int {
        self.pos as int
    }

    /// The line counter: how many line breaks have been emitted.
    pub closed spec fn line(&self) -> int {
        self.line as int
    }

    /// The column counter.
    pub closed spec fn column(&self) -> int {
        self.col as int
    }

    /// A lexer at the start of the given text.
    pub fn new(input: &str) -> (lexer: Self)
        ensures
            lexer.text() == input@,
            lexer.position() == 0,
            lexer.line() == 0,
            lexer.column() == 0,
    {
        Self { input: chars_of(input), pos: 0, line: 0, col: 0 }
    }

    /// Reads the rest of the text and returns its tokens.
    ///
    /// The kinds of the tokens are those that [`lex_from`] gives for the
    /// text from the cursor on; each token's span stops at the line that the
    /// counter had reached when the token began. The cursor ends up behind
    /// the text, so that a second call returns the end-of-input token alone.
    pub fn lex(&mut self) -> (tokens: Vec<Token>)
        ensures
            final(self).text() == old(self).text(),
            final(self).column() == old(self).column(),
            final(self).position() == if old(self).position() < old(self).text().len() {
                old(self).text().len() as int
            } else {
                old(self).position()
            },
            lexemes(tokens@) == lex_from(old(self).text(), old(self).position()),
            final(self).line() == line_behind(old(self).line(), lexemes(tokens@)),
            forall|i: int|
                0 <= i < tokens@.len() ==> (#[trigger] tokens@[i]).loc == span_at(
                    old(self).line(),
                    old(self).column(),
                    lexemes(tokens@),
                    i,
                ),
    {
        let mut res: Vec<Token> = Vec::new();
        let ghost s = self.input@;
        let ghost start = self.pos as int;
        let ghost line0 = self.line as int;
        let ghost col0 = self.col as int;
        proof {
            assert(lexemes(res@) =~= Seq::<Lexeme>::empty());
            assert(lexemes(res@) + lex_from(s, start) =~= lex_from(s, start));
        }
        loop
            invariant_except_break
                lexemes(res@) + lex_from(s, self.pos as int) == lex_from(s, start),
            invariant
                self.input@ == s,
                self.col == col0,
                self.pos >= start,
                self.pos <= s.len() || self.pos == start,
                i32::MIN <= line0 <= i32::MAX,
                self.line == line_behind(line0, lexemes(res@)),
                forall|i: int|
                    0 <= i < res@.len() ==> (#[trigger] res@[i]).loc == span_at(
                        line0,
                        col0,
                        lexemes(res@),
                        i,
                    ),
            ensures
                self.pos >= s.len(),
                self.pos <= s.len() || self.pos == start,
                lexemes(res@) == lex_from(s, start),
            decreases s.len() - self.pos,
        {
            let ghost before = res@;
            let ghost pos = self.pos as int;
            if self.pos >= self.input.len() {
                let t = Token::new(TokenValue::EOF, Location::new(0, 0).stop(self.line, self.col));
                proof {
                    lemma_emitted(line0, col0, before, t);
                    assert(lexemes(before.push(t)) =~= lexemes(before) + lex_from(s, pos));
                }
                res.push(t);
                break ;
            }
            proof {
                lemma_lex_unfold(s, pos);
            }
            match self.next_token() {
                Some(t) => {
                    proof {
                        lemma_emitted(line0, col0, before, t);
                        assert(lexemes(before.push(t)) + lex_from(s, self.pos as int) =~= lexemes(
                            before,
                        ) + (seq![t.value@] + lex_from(s, self.pos as int)));
                    }
                    if let TokenValue::Newline = t.value {
                        if self.line < i32::MAX {
                            self.line = self.line + 1;
                        }
                    }
                    res.push(t);
                },
                None => {},
            }
        }
        res
    }

    /// Consumes what starts at the cursor, which must be inside the text, and
    /// returns the token that it makes, if it makes one.
    fn next_token(&mut self) -> (next: Option<Token>)
        requires
            old(self).pos < old(self).input@.len(),
        ensures
            final(self).input@ == old(self).input@,
            final(self).line == old(self).line,
            final(self).col == old(self).col,
            final(self).pos as int == step(old(self).input@, old(self).pos as int).1,
            match next {
                Some(t) => step(old(self).input@, old(self).pos as int).0 == Some(t.value@)
                    && t.loc == Location::ending(old(self).line, old(self).col),
                None => step(old(self).input@, old(self).pos as int).0 is None,
            },
    {
        let ghost s = self.input@;
        let ghost pos = self.pos as int;
        let loc = Location::new(0, 0);
        let c = self.input[self.pos];
        let len = self.input.len();
        proof {
            lemma_step_advances(s, pos);
        }
        if c == ' ' || c == '\t' || c == '\r' {
            self.pos = self.pos + 1;
            None
        } else if c == '\n' {
            self.pos = self.pos + 1;
            Some(Token::new(TokenValue::Newline, loc.stop(self.line, self.col)))
        } else if c == ';' {
            self.pos = self.pos + 1;
            Some(Token::new(TokenValue::Semicolon, loc.stop(self.line, self.col)))
        } else if c == '#' {
            while self.pos < len && self.input[self.pos] != '\n'
                invariant
                    self.input@ == s,
                    self.line == old(self).line,
                    self.col == old(self).col,
                    len == s.len(),
                    pos <= self.pos <= len,
                    line_end(s, self.pos as int) == line_end(s, pos),
                decreases len - self.pos,
            {
                self.pos = self.pos + 1;
            }
            if self.pos < len {
                self.pos = self.pos + 1;
                None
            } else {
                Some(Token::new(TokenValue::EOF, loc.stop(self.line, self.col)))
            }
        } else if c == '(' {
            self.pos = self.pos + 1;
            Some(Token::new(TokenValue::LeftParen, loc.stop(self.line, self.col)))
        } else if c == ')' {
            self.pos = self.pos + 1;
            Some(Token::new(TokenValue::RightParen, loc.stop(self.line, self.col)))
        } else if c == '[' {
            self.pos = self.pos + 1;
            Some(Token::new(TokenValue::LeftBracket, loc.stop(self.line, self.col)))
        } else if c == ']' {
            self.pos = self.pos + 1;
            Some(Token::new(TokenValue::RightBracket, loc.stop(self.line, self.col)))
        } else if c == '{' {
            self.pos = self.pos + 1;
            Some(Token::new(TokenValue::BlockStart, loc.stop(self.line, self.col)))
        } else if c == '}' {
            self.pos = self.pos + 1;
            Some(Token::new(TokenValue::BlockEnd, loc.stop(self.line, self.col)))
        } else if c == '=' {
            self.pos = self.pos + 1;
            if self.pos < len && self.input[self.pos] == '=' {
                self.pos = self.pos + 1;
                Some(Token::new(TokenValue::Equal, loc.stop(self.line, self.col)))
            } else {
                Some(Token::new(TokenValue::Assign, loc.stop(self.line, self.col)))
            }
        } else if c == '+' {
            self.pos = self.pos + 1;
            Some(Token::new(TokenValue::Plus, loc.stop(self.line, self.col)))
        } else if c == '-' {
            self.pos = self.pos + 1;
            Some(Token::new(TokenValue::Minus, loc.stop(self.line, self.col)))
        } else if c == '*' {
            self.pos = self.pos + 1;
            Some(Token::new(TokenValue::Asterisk, loc.stop(self.line, self.col)))
        } else if c == '/' {
            self.pos = self.pos + 1;
            Some(Token::new(TokenValue::Slash, loc.stop(self.line, self.col)))
        } else if c == '&' {
            self.pos = self.pos + 1;
            if self.pos < len && self.input[self.pos] == '&' {
                self.pos = self.pos + 1;
                Some(Token::new(TokenValue::And, loc.stop(self.line, self.col)))
            } else {
                Some(Token::new(illegal(c), loc.stop(self.line, self.col)))
            }
        } else if c == '|' {
            self.pos = self.pos + 1;
            if self.pos < len && self.input[self.pos] == '|' {
                self.pos = self.pos + 1;
                Some(Token::new(TokenValue::Or, loc.stop(self.line, self.col)))
            } else {
                Some(Token::new(illegal(c), loc.stop(self.line, self.col)))
            }
        } else if c == '!' {
            self.pos = self.pos + 1;
            Some(Token::new(TokenValue::Bang, loc.stop(self.line, self.col)))
        } else if '0' <= c && c <= '9' {
            Some(self.lex_int_or_float(loc))
        } else if c == '"' {
            Some(self.lex_string(loc))
        } else if ('a' <= c && c <= 'z') || ('A' <= c && c <= 'Z') || c == '_' {
            Some(self.lex_ident(loc))
        } else {
            self.pos = self.pos + 1;
            Some(Token::new(illegal(c), loc.stop(self.line, self.col)))
        }
    }

    /// Reads the number literal at the cursor.
    fn lex_int_or_float(&mut self, loc: Location) -> (t: Token)
        ensures
            final(self).input@ == old(self).input@,
            final(self).line == old(self).line,
            final(self).col == old(self).col,
            (t.value@, final(self).pos as int) == scan_number(
                old(self).input@,
                old(self).pos as int,
                Seq::empty(),
                false,
            ),
            t.loc == loc.stopped(old(self).line, old(self).col),
    {
        let ghost s = self.input@;
        let ghost start = self.pos as int;
        let mut value = String::new();
        let mut float = false;
        let mut open = true;
        while open && self.pos < self.input.len()
            invariant
                self.input@ == s,
                s == old(self).input@,
                start == old(self).pos,
                self.line == old(self).line,
                self.col == old(self).col,
                scan_number(s, self.pos as int, value@, float) == scan_number(
                    s,
                    start,
                    Seq::empty(),
                    false,
                ),
                !open ==> self.pos < s.len() && !is_digit(s[self.pos as int]) && s[self.pos as int]
                    != '_' && s[self.pos as int] != '.',
            decreases s.len() - self.pos + if open { 1int } else { 0int },
        {
            let c = self.input[self.pos];
            if '0' <= c && c <= '9' {
                value.push(c);
                self.pos = self.pos + 1;
            } else if c == '_' {
                self.pos = self.pos + 1;
            } else if c == '.' {
                if float {
                    self.pos = self.pos + 1;
                    return Token::new(illegal(c), loc.stop(self.line, self.col));
                }
                float = true;
                value.push(c);
                self.pos = self.pos + 1;
            } else {
                open = false;
            }
        }
        if float {
            Token::new(TokenValue::Float(value), loc.stop(self.line, self.col))
        } else {
            Token::new(TokenValue::Integer(value), loc.stop(self.line, self.col))
        }
    }

    /// Reads the string literal whose opening quote is at the cursor.
    fn lex_string(&mut self, loc: Location) -> (t: Token)
        requires
            old(self).pos < old(self).input@.len(),
        ensures
            final(self).input@ == old(self).input@,
            final(self).line == old(self).line,
            final(self).col == old(self).col,
            (t.value@, final(self).pos as int) == scan_string(
                old(self).input@,
                old(self).pos + 1,
                Seq::empty(),
                false,
            ),
            t.loc == loc.stopped(old(self).line, old(self).col),
    {
        let ghost s = self.input@;
        let ghost start = self.pos + 1;
        let mut string = String::new();
        let mut escaped = false;
        let len = self.input.len();
        self.pos = self.pos + 1;
        while self.pos < len
            invariant
                self.input@ == s,
                s == old(self).input@,
                len == s.len(),
                start == old(self).pos + 1,
                self.line == old(self).line,
                self.col == old(self).col,
                self.pos <= s.len(),
                scan_string(s, self.pos as int, string@, escaped) == scan_string(
                    s,
                    start,
                    Seq::empty(),
                    false,
                ),
            decreases s.len() - self.pos,
        {
            let c = self.input[self.pos];
            self.pos = self.pos + 1;
            if c == '\\' {
                string.push(c);
                escaped = !escaped;
            } else if c == '"' {
                if escaped {
                    string.push(c);
                    escaped = false;
                } else {
                    return Token::new(TokenValue::String(string), loc.stop(self.line, self.col));
                }
            } else {
                string.push(c);
            }
        }
        Token::new(
            TokenValue::Illegal(String::from_str("unterminated quote string")),
            loc.stop(self.line, self.col),
        )
    }

    /// Reads the word at the cursor.
    fn lex_ident(&mut self, loc: Location) -> (t: Token)
        ensures
            final(self).input@ == old(self).input@,
            final(self).line == old(self).line,
            final(self).col == old(self).col,
            (t.value@, final(self).pos as int) == scan_ident(
                old(self).input@,
                old(self).pos as int,
                Seq::empty(),
            ),
            t.loc == loc.stopped(old(self).line, old(self).col),
    {
        let ghost s = self.input@;
        let ghost start = self.pos as int;
        let mut ident = String::new();
        let mut open = true;
        while open && self.pos < self.input.len()
            invariant
                self.input@ == s,
                self.line == old(self).line,
                self.col == old(self).col,
                scan_ident(s, self.pos as int, ident@) == scan_ident(s, start, Seq::empty()),
                !open ==> self.pos < s.len() && !is_ident_char(s[self.pos as int]),
            decreases s.len() - self.pos + if open { 1int } else { 0int },
        {
            let c = self.input[self.pos];
            if ('a' <= c && c <= 'z') || ('A' <= c && c <= 'Z') || c == '_' {
                ident.push(c);
                self.pos = self.pos + 1;
            } else {
                open = false;
            }
        }
        let value = if reads(&ident, "if") {
            TokenValue::If
        } else if reads(&ident, "elif") {
            TokenValue::Elif
        } else if reads(&ident, "else") {
            TokenValue::Else
        } else if reads(&ident, "true") {
            TokenValue::True
        } else if reads(&ident, "false") {
            TokenValue::False
        } else {
            TokenValue::Ident(ident)
        };
        Token::new(value, loc.stop(self.line, self.col))
    }
}

/// The tokens from a position inside the text on are the token of one step,
/// if it makes one, and then the tokens from where the step ends.
proof fn lemma_lex_unfold(s: Seq<char>, pos: int)
    requires
        0 <= pos < s.len(),
    ensures
        pos < step(s, pos).1 <= s.len(),
        lex_from(s, pos) == match step(s, pos).0 {
            Some(t) => seq![t] + lex_from(s, step(s, pos).1),
            None => lex_from(s, step(s, pos).1),
        },
{
    lemma_step_advances(s, pos);
}

/// What one more token does to the spans and to the line counter.
proof fn lemma_emitted(line: int, col: int, before: Seq<Token>, t: Token)
    requires
        i32::MIN <= line <= i32::MAX,
        forall|i: int|
            0 <= i < before.len() ==> (#[trigger] before[i]).loc == span_at(
                line,
                col,
                lexemes(before),
                i,
            ),
        t.loc == Location::ending(line_behind(line, lexemes(before)) as i32, col as i32),
    ensures
        lexemes(before.push(t)) == lexemes(before).push(t.value@),
        forall|i: int|
            0 <= i < before.len() + 1 ==> (#[trigger] before.push(t)[i]).loc == span_at(
                line,
                col,
                lexemes(before.push(t)),
                i,
            ),
        line_behind(line, lexemes(before.push(t))) == if t.value is Newline && line_behind(
            line,
            lexemes(before),
        ) < i32::MAX {
            line_behind(line, lexemes(before)) + 1
        } else {
            line_behind(line, lexemes(before))
        },
{
    let after = before.push(t);
    assert(lexemes(after) =~= lexemes(before).push(t.value@));
    assert(lexemes(after).drop_last() =~= lexemes(before));
    assert forall|i: int| 0 <= i < after.len() implies (#[trigger] after[i]).loc == span_at(
        line,
        col,
        lexemes(after),
        i,
    ) by {
        if i < before.len() {
            assert(after[i] == before[i]);
            assert(lexemes(after).take(i) =~= lexemes(before).take(i));
        } else {
            assert(lexemes(after).take(i) =~= lexemes(before));
        }
    }
}

/// The illegal token for an unexpected character.
fn illegal(c: char) -> (v: TokenValue)
    ensures
        v@ == Lexeme::Illegal(unexpected(c)),
{
    let mut msg = String::from_str("unexpected: ");
    msg.push(c);
    TokenValue::Illegal(msg)
}

} // verus!
