//! What the parser computes, as functions on sequences of token kinds.
//!
//! Parsing is recursive descent with a cursor. Every function here takes the
//! tokens and the cursor's position and gives back a [`Parsed`]: the tree or
//! the message of the first error, and where the cursor stands afterwards.
//! The cursor is an index into the tokens; behind the last token every
//! position reads as end of input, and the cursor never moves past the
//! position just behind the last token.

use vstd::prelude::*;
use crate::lexer::token::{lexeme_text, Lexeme};
use crate::text::{integer_parse_failure, integer_value};
use super::ast::{Expr, OperatorKind, Prim, Stmt};

verus! {

/// The outcome of one parsing function.
pub struct Parsed<T> {
    /// The tree, or the message of the error.
    pub outcome: Result<T, Seq<char>>,
    /// Where the cursor stands afterwards.
    pub pos: int,
}

/// The kind of the token at a position: end of input behind the last one.
pub open spec fn kind_at(ts: Seq<Lexeme>, pos: int) -> Lexeme {
    if 0 <= pos < ts.len() {
        ts[pos]
    } else {
        Lexeme::EOF
    }
}

/// The position behind `pos`: the cursor does not move once it is behind
/// the last token.
pub open spec fn advance(ts: Seq<Lexeme>, pos: int) -> int {
    if pos < ts.len() {
        pos + 1
    } else {
        pos
    }
}

/// How many tokens stand at or behind a position.
pub open spec fn left(ts: Seq<Lexeme>, pos: int) -> nat {
    if pos < ts.len() {
        (ts.len() - pos) as nat
    } else {
        0
    }
}

/// `p`, but not in front of `lo`. A parsing function never moves the cursor
/// backwards ([`super::progress`] proves it), so where this is applied to
/// the position that one has left, counted from where it began, it changes
/// nothing; it is what lets the definitions below be seen to terminate.
pub open spec fn at_least(lo: int, p: int) -> int {
    if p < lo {
        lo
    } else {
        p
    }
}

/// End of input, a semicolon or a line break.
pub open spec fn is_separator(l: Lexeme) -> bool {
    l is EOF || l is Semicolon || l is Newline
}

/// What ends the operands of a call: a separator or a closing parenthesis.
pub open spec fn ends_call(l: Lexeme) -> bool {
    is_separator(l) || l is RightParen
}

/// What ends the operands of an operator, of `&&` and of `||`: what ends
/// those of a call, or a brace, opening or closing.
pub open spec fn ends_operands(l: Lexeme) -> bool {
    ends_call(l) || l is BlockStart || l is BlockEnd
}

/// The operator that a token stands for.
pub open spec fn operator_of(l: Lexeme) -> Option<OperatorKind> {
    match l {
        Lexeme::Equal => Some(OperatorKind::Equal),
        Lexeme::Plus => Some(OperatorKind::Add),
        Lexeme::Minus => Some(OperatorKind::Subtract),
        Lexeme::Asterisk => Some(OperatorKind::Multiply),
        Lexeme::Slash => Some(OperatorKind::Divide),
        Lexeme::Bang => Some(OperatorKind::Inverse),
        _ => None,
    }
}

/// The message for a token that cannot stand where it stands.
pub open spec fn unexpected_token(l: Lexeme) -> Seq<char> {
    "unexpected token "@ + lexeme_text(l)
}

/// The message for the end of input inside a block or a parameter list.
pub open spec fn unexpected_end() -> Seq<char> {
    "unexpected end of file"@
}

/// The message for a missing `{`.
pub open spec fn expected_block_start(l: Lexeme) -> Seq<char> {
    "expected block start; got "@ + lexeme_text(l)
}

/// The message for a missing `)`.
pub open spec fn expected_right_paren(l: Lexeme) -> Seq<char> {
    "expected right paren; got "@ + lexeme_text(l)
}

/// A literal at the cursor, which stays where it is. An integer literal is
/// read as a 64-bit signed integer, and fails with the reader's message
/// where it does not write one.
pub open spec fn parse_primitive(ts: Seq<Lexeme>, pos: int) -> Parsed<Prim> {
    Parsed {
        outcome: match kind_at(ts, pos) {
            Lexeme::Integer(v) => match integer_value(v) {
                Some(n) => Ok(Prim::Integer(n)),
                None => Err(integer_parse_failure(v)),
            },
            Lexeme::Float(v) => Ok(Prim::Float(v)),
            Lexeme::String(v) => Ok(Prim::String(v)),
            Lexeme::True => Ok(Prim::Boolean(true)),
            Lexeme::False => Ok(Prim::Boolean(false)),
            t => Err(unexpected_token(t)),
        },
        pos,
    }
}

/// A name at the cursor, which stays where it is.
pub open spec fn parse_identifier(ts: Seq<Lexeme>, pos: int) -> Parsed<Seq<char>> {
    Parsed {
        outcome: match kind_at(ts, pos) {
            Lexeme::Ident(v) => Ok(v),
            t => Err(unexpected_token(t)),
        },
        pos,
    }
}

/// An expression at the cursor. With `calls` a name that something other
/// than a separator follows is a call; without, as for the operands of an
/// operator, every name is a variable.
///
/// The cursor ends on the last token of the expression.
pub open spec fn parse_expr(ts: Seq<Lexeme>, pos: int, calls: bool) -> Parsed<Expr>
    decreases left(ts, pos), 2int,
{
    match kind_at(ts, pos) {
        Lexeme::LeftParen => {
            let inner = advance(ts, pos);
            if kind_at(ts, inner) is RightParen {
                Parsed { outcome: Ok(Expr::Primitive(Prim::Null)), pos: inner }
            } else {
                let r = parse_expr(ts, inner, true);
                if r.outcome is Err {
                    r
                } else if kind_at(ts, r.pos + 1) is RightParen {
                    Parsed { outcome: r.outcome, pos: advance(ts, r.pos) }
                } else {
                    Parsed {
                        outcome: Err(expected_right_paren(kind_at(ts, r.pos + 1))),
                        pos: r.pos,
                    }
                }
            }
        },
        Lexeme::And => parse_and(ts, pos),
        Lexeme::Or => parse_or(ts, pos),
        Lexeme::BlockStart => parse_function(ts, pos),
        Lexeme::Integer(_) | Lexeme::Float(_) | Lexeme::String(_) | Lexeme::True | Lexeme::False => {
            let r = parse_primitive(ts, pos);
            Parsed {
                outcome: match r.outcome {
                    Ok(p) => Ok(Expr::Primitive(p)),
                    Err(m) => Err(m),
                },
                pos: r.pos,
            }
        },
        Lexeme::Ident(name) => {
            if !calls || is_separator(kind_at(ts, pos + 1)) {
                Parsed { outcome: Ok(Expr::Identifier(name)), pos }
            } else {
                parse_call(ts, pos)
            }
        },
        Lexeme::Equal | Lexeme::Plus | Lexeme::Minus | Lexeme::Asterisk | Lexeme::Slash | Lexeme::Bang => {
            parse_operator(ts, pos)
        },
        t => Parsed { outcome: Err(unexpected_token(t)), pos },
    }
}

/// `&&` at the cursor, and its operands.
pub open spec fn parse_and(ts: Seq<Lexeme>, pos: int) -> Parsed<Expr>
    decreases left(ts, pos), 1int,
{
    let r = parse_operands(ts, pos, Seq::empty());
    Parsed {
        outcome: match r.outcome {
            Ok(args) => Ok(Expr::And(args)),
            Err(m) => Err(m),
        },
        pos: r.pos,
    }
}

/// `||` at the cursor, and its operands.
pub open spec fn parse_or(ts: Seq<Lexeme>, pos: int) -> Parsed<Expr>
    decreases left(ts, pos), 1int,
{
    let r = parse_operands(ts, pos, Seq::empty());
    Parsed {
        outcome: match r.outcome {
            Ok(args) => Ok(Expr::Or(args)),
            Err(m) => Err(m),
        },
        pos: r.pos,
    }
}

/// The operands of `&&` or `||`, whose token is at the cursor: expressions
/// up to what ends them. `acc` holds those read so far.
pub open spec fn parse_operands(ts: Seq<Lexeme>, pos: int, acc: Seq<Expr>) -> Parsed<Seq<Expr>>
    decreases left(ts, pos), 0int,
{
    if ends_operands(kind_at(ts, pos + 1)) {
        Parsed { outcome: Ok(acc), pos }
    } else {
        let r = parse_expr(ts, pos + 1, true);
        match r.outcome {
            Ok(e) => parse_operands(ts, at_least(pos + 1, r.pos), acc.push(e)),
            Err(m) => Parsed { outcome: Err(m), pos: r.pos },
        }
    }
}

/// A call, whose name is at the cursor.
pub open spec fn parse_call(ts: Seq<Lexeme>, pos: int) -> Parsed<Expr>
    decreases left(ts, pos), 1int,
{
    match parse_identifier(ts, pos).outcome {
        Ok(name) => {
            let r = parse_call_operands(ts, pos, Seq::empty());
            Parsed {
                outcome: match r.outcome {
                    Ok(args) => Ok(Expr::Call(name, args)),
                    Err(m) => Err(m),
                },
                pos: r.pos,
            }
        },
        Err(m) => Parsed { outcome: Err(m), pos },
    }
}

/// The operands of a call: expressions up to what ends them.
pub open spec fn parse_call_operands(ts: Seq<Lexeme>, pos: int, acc: Seq<Expr>) -> Parsed<
    Seq<Expr>,
>
    decreases left(ts, pos), 0int,
{
    if ends_call(kind_at(ts, pos + 1)) {
        Parsed { outcome: Ok(acc), pos }
    } else {
        let r = parse_expr(ts, pos + 1, true);
        match r.outcome {
            Ok(e) => parse_call_operands(ts, at_least(pos + 1, r.pos), acc.push(e)),
            Err(m) => Parsed { outcome: Err(m), pos: r.pos },
        }
    }
}

/// An operator application, whose operator is at the cursor. It never
/// fails once the operator is there: an operand that fails to parse ends the
/// operands, and those read before it stand.
pub open spec fn parse_operator(ts: Seq<Lexeme>, pos: int) -> Parsed<Expr>
    decreases left(ts, pos), 1int,
{
    match operator_of(kind_at(ts, pos)) {
        Some(kind) => {
            let r = parse_operator_operands(ts, pos, Seq::empty());
            Parsed { outcome: Ok(Expr::Operator(kind, r.0)), pos: r.1 }
        },
        None => Parsed { outcome: Err(unexpected_token(kind_at(ts, pos))), pos },
    }
}

/// The operands of an operator and where the cursor stands behind them:
/// expressions without calls, up to what ends them or to the first that
/// fails. The cursor stays where the failed attempt left it, so that the
/// token that it failed on is passed over.
pub open spec fn parse_operator_operands(ts: Seq<Lexeme>, pos: int, acc: Seq<Expr>) -> (
    Seq<Expr>,
    int,
)
    decreases left(ts, pos), 0int,
{
    if ends_operands(kind_at(ts, pos + 1)) {
        (acc, pos)
    } else {
        let r = parse_expr(ts, pos + 1, false);
        match r.outcome {
            Ok(e) => parse_operator_operands(ts, at_least(pos + 1, r.pos), acc.push(e)),
            Err(_) => (acc, r.pos),
        }
    }
}

/// A function literal, whose opening brace is at the cursor: an optional
/// parameter list in square brackets, then statements up to the closing
/// brace, on which the cursor ends.
pub open spec fn parse_function(ts: Seq<Lexeme>, pos: int) -> Parsed<Expr>
    decreases left(ts, pos), 1int,
{
    let params = parse_signature(ts, pos);
    match params.outcome {
        Ok(names) => {
            let body = parse_block(ts, at_least(pos, params.pos), Seq::empty());
            Parsed {
                outcome: match body.outcome {
                    Ok(stmts) => Ok(Expr::Function(names, stmts)),
                    Err(m) => Err(m),
                },
                pos: body.pos,
            }
        },
        Err(m) => Parsed { outcome: Err(m), pos: params.pos },
    }
}

/// The parameter list of a function literal whose opening brace is at the
/// cursor: the names in square brackets where a bracket follows the brace,
/// and no names where none does. The cursor ends on the closing bracket, or
/// stays on the brace where there is no list.
pub open spec fn parse_signature(ts: Seq<Lexeme>, pos: int) -> Parsed<Seq<Seq<char>>> {
    if kind_at(ts, pos + 1) is LeftBracket {
        parse_params(ts, pos + 1, Seq::empty())
    } else {
        Parsed { outcome: Ok(Seq::empty()), pos }
    }
}

/// The rest of a parameter list: the cursor stands on the opening bracket
/// or on the last name read, and ends on the closing bracket.
pub open spec fn parse_params(ts: Seq<Lexeme>, pos: int, acc: Seq<Seq<char>>) -> Parsed<
    Seq<Seq<char>>,
>
    decreases left(ts, pos),
{
    let next = advance(ts, pos);
    match kind_at(ts, next) {
        Lexeme::EOF => Parsed { outcome: Err(unexpected_end()), pos: next },
        Lexeme::RightBracket => Parsed { outcome: Ok(acc), pos: next },
        Lexeme::Ident(name) => parse_params(ts, next, acc.push(name)),
        t => Parsed { outcome: Err(unexpected_token(t)), pos: next },
    }
}

/// A statement at the cursor: an assignment, an `if`, or else an expression.
pub open spec fn parse_statement(ts: Seq<Lexeme>, pos: int) -> Parsed<Stmt>
    decreases left(ts, pos), 4int,
{
    match kind_at(ts, pos) {
        Lexeme::Assign => parse_assign(ts, pos),
        Lexeme::If => parse_if(ts, pos),
        _ => {
            let r = parse_expr(ts, pos, true);
            Parsed {
                outcome: match r.outcome {
                    Ok(e) => Ok(Stmt::Expression(e)),
                    Err(m) => Err(m),
                },
                pos: r.pos,
            }
        },
    }
}

/// An assignment, whose `=` is at the cursor: a name, an expression, and
/// then a separator, which is not consumed.
pub open spec fn parse_assign(ts: Seq<Lexeme>, pos: int) -> Parsed<Stmt>
    decreases left(ts, pos), 3int,
{
    let at_name = advance(ts, pos);
    match parse_identifier(ts, at_name).outcome {
        Ok(name) => {
            let r = parse_expr(ts, at_name + 1, true);
            match r.outcome {
                Ok(value) => {
                    let follows = kind_at(ts, r.pos + 1);
                    if is_separator(follows) {
                        Parsed { outcome: Ok(Stmt::Assign(name, value)), pos: r.pos }
                    } else {
                        Parsed { outcome: Err(unexpected_token(follows)), pos: r.pos }
                    }
                },
                Err(m) => Parsed { outcome: Err(m), pos: r.pos },
            }
        },
        Err(m) => Parsed { outcome: Err(m), pos: at_name },
    }
}

/// An `if`, whose keyword is at the cursor: a condition, a block, and
/// then `else` with a second block where `else` is the token behind the
/// first block. The cursor ends on the closing brace of the last block;
/// where no `else` follows, nothing behind the first block is consumed and
/// there is no alternative. Behind the last token there is no condition to
/// read: the end of the input is what is unexpected there.
pub open spec fn parse_if(ts: Seq<Lexeme>, pos: int) -> Parsed<Stmt>
    decreases left(ts, pos), 3int,
{
    if !(0 <= pos < ts.len()) {
        Parsed { outcome: Err(unexpected_token(Lexeme::EOF)), pos }
    } else {
        let c = parse_expr(ts, pos + 1, true);
        match c.outcome {
            Ok(condition) => {
                let open = advance(ts, at_least(pos + 1, c.pos));
                if !(kind_at(ts, open) is BlockStart) {
                    Parsed { outcome: Err(expected_block_start(kind_at(ts, open))), pos: open }
                } else {
                    let first = parse_block(ts, open, Seq::empty());
                    match first.outcome {
                        Ok(consequence) => parse_else(
                            ts,
                            at_least(open, first.pos),
                            condition,
                            consequence,
                        ),
                        Err(m) => Parsed { outcome: Err(m), pos: first.pos },
                    }
                }
            },
            Err(m) => Parsed { outcome: Err(m), pos: c.pos },
        }
    }
}

/// What follows the first block of an `if`, on whose closing brace the
/// cursor stands. Where `else` is the token behind it, a second block
/// follows, and the cursor ends on its closing brace. Where it is not, the
/// `if` has no alternative and the cursor stays where it is.
pub open spec fn parse_else(ts: Seq<Lexeme>, pos: int, condition: Expr, consequence: Seq<Stmt>) -> Parsed<
    Stmt,
>
    decreases left(ts, pos), 1int,
{
    let open = advance(ts, pos + 1);
    if !(kind_at(ts, pos + 1) is Else) {
        Parsed { outcome: Ok(Stmt::If(condition, consequence, None)), pos }
    } else if !(kind_at(ts, open) is BlockStart) {
        Parsed { outcome: Err(expected_block_start(kind_at(ts, open))), pos: open }
    } else {
        let second = parse_block(ts, open, Seq::empty());
        match second.outcome {
            Ok(alternative) => Parsed {
                outcome: Ok(Stmt::If(condition, consequence, Some(alternative))),
                pos: second.pos,
            },
            Err(m) => Parsed { outcome: Err(m), pos: second.pos },
        }
    }
}

/// The statements of a block, that of a function literal or of an `if`:
/// the cursor stands on the opening brace, on the closing bracket of the
/// parameter list, on a separator or on the last token of a statement, and
/// ends on the closing brace.
pub open spec fn parse_block(ts: Seq<Lexeme>, pos: int, acc: Seq<Stmt>) -> Parsed<Seq<Stmt>>
    decreases left(ts, pos), 0int,
{
    match kind_at(ts, pos + 1) {
        Lexeme::EOF => Parsed { outcome: Err(unexpected_end()), pos },
        Lexeme::Semicolon | Lexeme::Newline => parse_block(ts, pos + 1, acc),
        Lexeme::BlockEnd => Parsed { outcome: Ok(acc), pos: pos + 1 },
        _ => {
            let r = parse_statement(ts, pos + 1);
            match r.outcome {
                Ok(s) => parse_block(ts, at_least(pos + 1, r.pos), acc.push(s)),
                Err(m) => Parsed { outcome: Err(m), pos: r.pos },
            }
        },
    }
}

/// The statements of a program from the cursor on. Behind a statement one
/// token is passed over, whatever it is, unless the input ends there.
pub open spec fn parse_statements(ts: Seq<Lexeme>, pos: int, acc: Seq<Stmt>) -> Parsed<Seq<Stmt>>
    decreases left(ts, pos), 5int,
{
    match kind_at(ts, pos) {
        Lexeme::EOF => Parsed { outcome: Ok(acc), pos },
        Lexeme::Semicolon | Lexeme::Newline => parse_statements(ts, pos + 1, acc),
        _ => {
            let r = parse_statement(ts, pos);
            match r.outcome {
                Ok(s) => {
                    let end = at_least(pos, r.pos);
                    if kind_at(ts, end) is EOF {
                        Parsed { outcome: Ok(acc.push(s)), pos: end }
                    } else {
                        parse_statements(ts, end + 1, acc.push(s))
                    }
                },
                Err(m) => Parsed { outcome: Err(m), pos: r.pos },
            }
        },
    }
}

/// The program that a token stream writes.
pub open spec fn parse_program(ts: Seq<Lexeme>) -> Result<Seq<Stmt>, Seq<char>> {
    parse_statements(ts, 0, Seq::empty()).outcome
}

} // verus!
