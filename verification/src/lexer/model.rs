//! What the lexer computes, as functions on sequences of characters.
//!
//! The token stream of a text is defined by a scan from left to right with
//! one character of lookahead: [`lex_from`] gives the tokens of the text
//! from a position on, and [`scan_number`], [`scan_string`] and
//! [`scan_ident`] give the token that starts at a position together with the
//! position just behind it.

use vstd::prelude::*;
use super::token::{Lexeme, Location};

verus! {

/// A decimal digit.
pub open spec fn is_digit(c: char) -> bool {
    '0' <= c <= '9'
}

/// A character that may stand in an identifier: a letter or an underscore.
pub open spec fn is_ident_char(c: char) -> bool {
    ('a' <= c <= 'z') || ('A' <= c <= 'Z') || c == '_'
}

/// The message of the illegal token for an unexpected character.
pub open spec fn unexpected(c: char) -> Seq<char> {
    "unexpected: "@.push(c)
}

/// The token of a finished word: a keyword, or else an identifier.
pub open spec fn word(text: Seq<char>) -> Lexeme {
    if text == "if"@ {
        Lexeme::If
    } else if text == "elif"@ {
        Lexeme::Elif
    } else if text == "else"@ {
        Lexeme::Else
    } else if text == "true"@ {
        Lexeme::True
    } else if text == "false"@ {
        Lexeme::False
    } else {
        Lexeme::Ident(text)
    }
}

/// The number literal that is being read at `pos`, and where the scan goes on.
/// `acc` holds the digits read so far and `float` says whether a decimal
/// point is among them. Underscores are skipped. A second decimal point is
/// consumed and turns the whole literal into an illegal token.
pub open spec fn scan_number(s: Seq<char>, pos: int, acc: Seq<char>, float: bool) -> (Lexeme, int)
    decreases s.len() - pos,
{
    if 0 <= pos < s.len() {
        let c = s[pos];
        if is_digit(c) {
            scan_number(s, pos + 1, acc.push(c), float)
        } else if c == '_' {
            scan_number(s, pos + 1, acc, float)
        } else if c == '.' {
            if float {
                (Lexeme::Illegal(unexpected(c)), pos + 1)
            } else {
                scan_number(s, pos + 1, acc.push(c), true)
            }
        } else {
            (if float { Lexeme::Float(acc) } else { Lexeme::Integer(acc) }, pos)
        }
    } else {
        (if float { Lexeme::Float(acc) } else { Lexeme::Integer(acc) }, pos)
    }
}

/// The string literal whose content is being read at `pos` (behind the
/// opening quote), and where the scan goes on. Every character up to the
/// closing quote is copied. A backslash flips `escaped`; a quote read while
/// `escaped` is set is copied like any other character and clears it.
pub open spec fn scan_string(s: Seq<char>, pos: int, acc: Seq<char>, escaped: bool) -> (Lexeme, int)
    decreases s.len() - pos,
{
    if 0 <= pos < s.len() {
        let c = s[pos];
        if c == '\\' {
            scan_string(s, pos + 1, acc.push(c), !escaped)
        } else if c == '"' {
            if escaped {
                scan_string(s, pos + 1, acc.push(c), false)
            } else {
                (Lexeme::String(acc), pos + 1)
            }
        } else {
            scan_string(s, pos + 1, acc.push(c), escaped)
        }
    } else {
        (Lexeme::Illegal("unterminated quote string"@), pos)
    }
}

/// The word that is being read at `pos`, and where the scan goes on.
pub open spec fn scan_ident(s: Seq<char>, pos: int, acc: Seq<char>) -> (Lexeme, int)
    decreases s.len() - pos,
{
    if 0 <= pos < s.len() && is_ident_char(s[pos]) {
        scan_ident(s, pos + 1, acc.push(s[pos]))
    } else {
        (word(acc), pos)
    }
}

/// The position of the first line feed at or behind `pos`, or the length of
/// the text where there is none.
pub open spec fn line_end(s: Seq<char>, pos: int) -> int
    decreases s.len() - pos,
{
    if 0 <= pos < s.len() && s[pos] != '\n' {
        line_end(s, pos + 1)
    } else {
        pos
    }
}

/// The token that starts at `pos`, if one does, and the position behind what
/// was consumed. `pos` must be inside the text.
pub open spec fn step(s: Seq<char>, pos: int) -> (Option<Lexeme>, int) {
    let c = s[pos];
    let next_is = |d: char| pos + 1 < s.len() && s[pos + 1] == d;
    if c == ' ' || c == '\t' || c == '\r' {
        (None, pos + 1)
    } else if c == '\n' {
        (Some(Lexeme::Newline), pos + 1)
    } else if c == ';' {
        (Some(Lexeme::Semicolon), pos + 1)
    } else if c == '#' {
        let end = line_end(s, pos);
        if end < s.len() {
            (None, end + 1)
        } else {
            (Some(Lexeme::EOF), end)
        }
    } else if c == '(' {
        (Some(Lexeme::LeftParen), pos + 1)
    } else if c == ')' {
        (Some(Lexeme::RightParen), pos + 1)
    } else if c == '[' {
        (Some(Lexeme::LeftBracket), pos + 1)
    } else if c == ']' {
        (Some(Lexeme::RightBracket), pos + 1)
    } else if c == '{' {
        (Some(Lexeme::BlockStart), pos + 1)
    } else if c == '}' {
        (Some(Lexeme::BlockEnd), pos + 1)
    } else if c == '=' {
        if next_is('=') {
            (Some(Lexeme::Equal), pos + 2)
        } else {
            (Some(Lexeme::Assign), pos + 1)
        }
    } else if c == '+' {
        (Some(Lexeme::Plus), pos + 1)
    } else if c == '-' {
        (Some(Lexeme::Minus), pos + 1)
    } else if c == '*' {
        (Some(Lexeme::Asterisk), pos + 1)
    } else if c == '/' {
        (Some(Lexeme::Slash), pos + 1)
    } else if c == '&' {
        if next_is('&') {
            (Some(Lexeme::And), pos + 2)
        } else {
            (Some(Lexeme::Illegal(unexpected(c))), pos + 1)
        }
    } else if c == '|' {
        if next_is('|') {
            (Some(Lexeme::Or), pos + 2)
        } else {
            (Some(Lexeme::Illegal(unexpected(c))), pos + 1)
        }
    } else if c == '!' {
        (Some(Lexeme::Bang), pos + 1)
    } else if is_digit(c) {
        let (t, end) = scan_number(s, pos, Seq::empty(), false);
        (Some(t), end)
    } else if c == '"' {
        let (t, end) = scan_string(s, pos + 1, Seq::empty(), false);
        (Some(t), end)
    } else if is_ident_char(c) {
        let (t, end) = scan_ident(s, pos, Seq::empty());
        (Some(t), end)
    } else {
        (Some(Lexeme::Illegal(unexpected(c))), pos + 1)
    }
}

/// The tokens of the text from `pos` on. The stream always ends with an
/// end-of-input token; a comment that runs into the end of the text puts one
/// more in front of it.
///
/// A step always ends behind where it began and inside the text
/// ([`lemma_step_advances`]); the test for it here is what lets the
/// definition be seen to terminate.
pub open spec fn lex_from(s: Seq<char>, pos: int) -> Seq<Lexeme>
    decreases s.len() - pos,
{
    if 0 <= pos < s.len() {
        let (t, end) = step(s, pos);
        let rest = if pos < end <= s.len() {
            lex_from(s, end)
        } else {
            seq![Lexeme::EOF]
        };
        match t {
            Some(t) => seq![t] + rest,
            None => rest,
        }
    } else {
        seq![Lexeme::EOF]
    }
}

/// The tokens of a whole text.
pub open spec fn lex_text(s: Seq<char>) -> Seq<Lexeme> {
    lex_from(s, 0)
}

/// How many line breaks a token stream holds.
pub open spec fn newlines(ts: Seq<Lexeme>) -> nat
    decreases ts.len(),
{
    if ts.len() == 0 {
        0
    } else {
        newlines(ts.drop_last()) + if ts.last() is Newline { 1nat } else { 0nat }
    }
}

/// The line counter behind the tokens `ts`, counted from `start`: one line
/// more for each line break, as far as the counter's type can count.
pub open spec fn line_behind(start: int, ts: Seq<Lexeme>) -> int {
    if start + newlines(ts) <= i32::MAX {
        start + newlines(ts)
    } else {
        i32::MAX as int
    }
}

/// The span that the lexer gives the token at index `i` of the stream `ts`:
/// it stops at the line that the counter has reached in front of the token.
pub open spec fn span_at(line: int, col: int, ts: Seq<Lexeme>, i: int) -> Location {
    Location {
        line_start: 0,
        line_stop: line_behind(line, ts.take(i)) as i32,
        col_start: 0,
        col_stop: col as i32,
    }
}

/// Each scan ends inside the text and behind where it began.
pub proof fn lemma_scan_number_bounds(s: Seq<char>, pos: int, acc: Seq<char>, float: bool)
    requires
        0 <= pos <= s.len(),
    ensures
        pos <= scan_number(s, pos, acc, float).1 <= s.len(),
        pos < s.len() && is_digit(s[pos]) ==> pos < scan_number(s, pos, acc, float).1,
    decreases s.len() - pos,
{
    if pos < s.len() {
        let c = s[pos];
        if is_digit(c) {
            lemma_scan_number_bounds(s, pos + 1, acc.push(c), float);
        } else if c == '_' {
            lemma_scan_number_bounds(s, pos + 1, acc, float);
        } else if c == '.' && !float {
            lemma_scan_number_bounds(s, pos + 1, acc.push(c), true);
        }
    }
}

/// See [`lemma_scan_number_bounds`].
pub proof fn lemma_scan_string_bounds(s: Seq<char>, pos: int, acc: Seq<char>, escaped: bool)
    requires
        0 <= pos <= s.len(),
    ensures
        pos <= scan_string(s, pos, acc, escaped).1 <= s.len(),
    decreases s.len() - pos,
{
    if pos < s.len() {
        let c = s[pos];
        if c == '\\' {
            lemma_scan_string_bounds(s, pos + 1, acc.push(c), !escaped);
        } else if c == '"' {
            if escaped {
                lemma_scan_string_bounds(s, pos + 1, acc.push(c), false);
            }
        } else {
            lemma_scan_string_bounds(s, pos + 1, acc.push(c), escaped);
        }
    }
}

/// See [`lemma_scan_number_bounds`].
pub proof fn lemma_scan_ident_bounds(s: Seq<char>, pos: int, acc: Seq<char>)
    requires
        0 <= pos <= s.len(),
    ensures
        pos <= scan_ident(s, pos, acc).1 <= s.len(),
        pos < s.len() && is_ident_char(s[pos]) ==> pos < scan_ident(s, pos, acc).1,
    decreases s.len() - pos,
{
    if pos < s.len() && is_ident_char(s[pos]) {
        lemma_scan_ident_bounds(s, pos + 1, acc.push(s[pos]));
    }
}

/// A line ends inside the text, at a line feed or at the end of the text.
pub proof fn lemma_line_end_bounds(s: Seq<char>, pos: int)
    requires
        0 <= pos <= s.len(),
    ensures
        pos <= line_end(s, pos) <= s.len(),
        line_end(s, pos) < s.len() ==> s[line_end(s, pos)] == '\n',
    decreases s.len() - pos,
{
    if pos < s.len() && s[pos] != '\n' {
        lemma_line_end_bounds(s, pos + 1);
    }
}

/// Every step consumes at least one character and stays inside the text,
/// so the scan of [`lex_from`] never stops short of the end.
pub proof fn lemma_step_advances(s: Seq<char>, pos: int)
    requires
        0 <= pos < s.len(),
    ensures
        pos < step(s, pos).1 <= s.len(),
{
    lemma_scan_number_bounds(s, pos, Seq::empty(), false);
    lemma_scan_string_bounds(s, pos + 1, Seq::empty(), false);
    lemma_scan_ident_bounds(s, pos, Seq::empty());
    lemma_line_end_bounds(s, pos);
}

} // verus!
