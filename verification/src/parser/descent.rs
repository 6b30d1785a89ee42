//! Recursive descent over the tokens.
//!
//! Each function parses what its type stands for from the cursor on, and
//! its contract names the function of [`super::grammar`] that says what
//! that is: the same tree or the same message, and the same final position
//! of the cursor.

use vstd::prelude::*;
use vstd::string::*;
use crate::error::Error;
use crate::lexer::token::{lexeme_text, TokenValue};
use crate::text::{join, parse_integer};
use super::ast::{
    boxed_stmts_view, exprs_view, lemma_boxed_stmts_push, lemma_exprs_push, lemma_names_push,
    lemma_stmts_push, names_view, stmts_view, And, Assign, Call, Expr, Expression, Function,
    Identifier, If, Operator, OperatorKind, Or, Primitive, Program, Statement, Stmt,
};
use super::grammar::{
    ends_call, ends_operands, is_separator, kind_at, left, operator_of, parse_assign, parse_block,
    parse_call, parse_call_operands, parse_and, parse_expr, parse_function,
    parse_identifier, parse_if, parse_operands, parse_operator, parse_operator_operands, parse_or,
    parse_params, parse_primitive, parse_signature, parse_statement, parse_statements,
    Parsed,
};
use super::{Parse, Parser};

verus! {

/// A parsing function has done what the grammar says: the tokens are
/// untouched, the cursor stands where the grammar puts it, not in front of
/// where it stood, and the result is the grammar's.
pub open spec fn parsed<T: View>(
    before: Parser,
    after: Parser,
    r: Result<T, Error>,
    by_grammar: Parsed<T::V>,
) -> bool {
    &&& after.source() == before.source()
    &&& after.tokens() == before.tokens()
    &&& after.position() == by_grammar.pos
    &&& after.position() >= before.position()
    &&& match r {
        Ok(v) => by_grammar.outcome == Ok::<T::V, Seq<char>>(v@),
        Err(e) => by_grammar.outcome == Err::<T::V, Seq<char>>(e@),
    }
}

fn separates(v: &TokenValue) -> (b: bool)
    ensures
        b == is_separator(v@),
{
    match v {
        TokenValue::EOF | TokenValue::Semicolon | TokenValue::Newline => true,
        _ => false,
    }
}

fn closes_call(v: &TokenValue) -> (b: bool)
    ensures
        b == ends_call(v@),
{
    match v {
        TokenValue::EOF | TokenValue::Semicolon | TokenValue::Newline | TokenValue::RightParen => true,
        _ => false,
    }
}

fn closes_operands(v: &TokenValue) -> (b: bool)
    ensures
        b == ends_operands(v@),
{
    match v {
        TokenValue::EOF
        | TokenValue::Semicolon
        | TokenValue::Newline
        | TokenValue::RightParen
        | TokenValue::BlockStart
        | TokenValue::BlockEnd => true,
        _ => false,
    }
}

fn complaint(head: &str, v: &TokenValue) -> (e: Error)
    ensures
        e@ == head@ + lexeme_text(v@),
{
    let shown = v.to_string();
    Error::from_string(join(head, shown.as_str()))
}

impl Identifier {
    /// A name at the cursor, which stays where it is.
    pub fn parse(p: &mut Parser) -> (r: Result<Identifier, Error>)
        ensures
            parsed(*old(p), *final(p), r, parse_identifier(old(p).tokens(), old(p).position())),
    {
        match p.current() {
            TokenValue::Ident(value) => Ok(Identifier { value: value.clone() }),
            t => Err(complaint("unexpected token ", t)),
        }
    }
}

impl Primitive {
    /// A literal at the cursor, which stays where it is.
    pub fn parse(p: &mut Parser) -> (r: Result<Primitive, Error>)
        ensures
            parsed(*old(p), *final(p), r, parse_primitive(old(p).tokens(), old(p).position())),
    {
        match p.current() {
            TokenValue::Integer(v) => match parse_integer(v.as_str()) {
                Ok(n) => Ok(Primitive::Integer(n)),
                Err(msg) => Err(Error::from_string(msg)),
            },
            TokenValue::Float(v) => Ok(Primitive::Float(v.clone())),
            TokenValue::String(v) => Ok(Primitive::String(v.clone())),
            TokenValue::True => Ok(Primitive::Boolean(true)),
            TokenValue::False => Ok(Primitive::Boolean(false)),
            t => Err(complaint("unexpected token ", t)),
        }
    }
}

impl Expression {
    /// An expression at the cursor, in which a name that something other
    /// than a separator follows is a call.
    pub fn parse(p: &mut Parser) -> (r: Result<Expression, Error>)
        ensures
            parsed(*old(p), *final(p), r, parse_expr(old(p).tokens(), old(p).position(), true)),
        decreases left(old(p).tokens(), old(p).position()), 3int,
    {
        Expression::parse_either(p, true)
    }

    /// An expression at the cursor, in which every name is a variable: what
    /// the operands of an operator are.
    pub fn parse_non_call(p: &mut Parser) -> (r: Result<Expression, Error>)
        ensures
            parsed(*old(p), *final(p), r, parse_expr(old(p).tokens(), old(p).position(), false)),
        decreases left(old(p).tokens(), old(p).position()), 3int,
    {
        Expression::parse_either(p, false)
    }

    fn parse_either(p: &mut Parser, calls: bool) -> (r: Result<Expression, Error>)
        ensures
            parsed(*old(p), *final(p), r, parse_expr(old(p).tokens(), old(p).position(), calls)),
        decreases left(old(p).tokens(), old(p).position()), 2int,
    {
        match p.current() {
            TokenValue::LeftParen => {
                p.step();
                if let TokenValue::RightParen = p.current() {
                    return Ok(Expression::Primitive(Primitive::Null));
                }
                let expr = match Expression::parse(p) {
                    Ok(e) => e,
                    Err(e) => {
                        return Err(e);
                    },
                };
                if let TokenValue::RightParen = p.peek() {
                    p.step();
                    Ok(expr)
                } else {
                    Err(complaint("expected right paren; got ", p.peek()))
                }
            },
            TokenValue::And => match And::parse(p) {
                Ok(v) => Ok(Expression::And(v)),
                Err(e) => Err(e),
            },
            TokenValue::Or => match Or::parse(p) {
                Ok(v) => Ok(Expression::Or(v)),
                Err(e) => Err(e),
            },
            TokenValue::BlockStart => match Function::parse(p) {
                Ok(v) => Ok(Expression::Function(v)),
                Err(e) => Err(e),
            },
            TokenValue::Integer(_)
            | TokenValue::Float(_)
            | TokenValue::String(_)
            | TokenValue::True
            | TokenValue::False => match Primitive::parse(p) {
                Ok(v) => Ok(Expression::Primitive(v)),
                Err(e) => Err(e),
            },
            TokenValue::Ident(_) => {
                if !calls || separates(p.peek()) {
                    match Identifier::parse(p) {
                        Ok(v) => Ok(Expression::Identifier(v)),
                        Err(e) => Err(e),
                    }
                } else {
                    match Call::parse(p) {
                        Ok(v) => Ok(Expression::Call(v)),
                        Err(e) => Err(e),
                    }
                }
            },
            TokenValue::Equal
            | TokenValue::Plus
            | TokenValue::Minus
            | TokenValue::Asterisk
            | TokenValue::Slash
            | TokenValue::Bang => match Operator::parse(p) {
                Ok(v) => Ok(Expression::Operator(v)),
                Err(e) => Err(e),
            },
            t => Err(complaint("unexpected token ", t)),
        }
    }
}

/// The operands of `&&` or `||`, whose token is at the cursor.
fn logic_operands(p: &mut Parser) -> (r: Result<Vec<Expression>, Error>)
    ensures
        final(p).source() == old(p).source(),
        final(p).tokens() == old(p).tokens(),
        final(p).position() == parse_operands(
            old(p).tokens(),
            old(p).position(),
            Seq::empty(),
        ).pos,
        final(p).position() >= old(p).position(),
        match r {
            Ok(args) => parse_operands(old(p).tokens(), old(p).position(), Seq::empty()).outcome
                == Ok::<Seq<Expr>, Seq<char>>(exprs_view(args@)),
            Err(e) => parse_operands(old(p).tokens(), old(p).position(), Seq::empty()).outcome
                == Err::<Seq<Expr>, Seq<char>>(e@),
        },
    decreases left(old(p).tokens(), old(p).position()), 0int,
{
    let ghost ts = p.tokens();
    let ghost start = p.position();
    let mut args: Vec<Expression> = Vec::new();
    assert(exprs_view(args@) =~= Seq::<Expr>::empty());
    loop
        invariant
            p.source() == old(p).source(),
            p.tokens() == ts,
            ts == old(p).tokens(),
            start == old(p).position(),
            start <= p.position(),
            parse_operands(ts, p.position(), exprs_view(args@)) == parse_operands(
                ts,
                start,
                Seq::empty(),
            ),
        decreases left(ts, p.position()),
    {
        if closes_operands(p.peek()) {
            return Ok(args);
        }
        p.step();
        match Expression::parse(p) {
            Ok(e) => {
                proof {
                    lemma_exprs_push(args@, e);
                }
                args.push(e);
            },
            Err(e) => {
                return Err(e);
            },
        }
    }
}

impl And {
    /// `&&` and its operands.
    pub fn parse(p: &mut Parser) -> (r: Result<And, Error>)
        ensures
            parsed(*old(p), *final(p), r, parse_and(old(p).tokens(), old(p).position())),
        decreases left(old(p).tokens(), old(p).position()), 1int,
    {
        match logic_operands(p) {
            Ok(args) => Ok(And(args)),
            Err(e) => Err(e),
        }
    }
}

impl Or {
    /// `||` and its operands.
    pub fn parse(p: &mut Parser) -> (r: Result<Or, Error>)
        ensures
            parsed(*old(p), *final(p), r, parse_or(old(p).tokens(), old(p).position())),
        decreases left(old(p).tokens(), old(p).position()), 1int,
    {
        match logic_operands(p) {
            Ok(args) => Ok(Or(args)),
            Err(e) => Err(e),
        }
    }
}

impl Call {
    /// A call, whose name is at the cursor.
    pub fn parse(p: &mut Parser) -> (r: Result<Call, Error>)
        ensures
            parsed(*old(p), *final(p), r, parse_call(old(p).tokens(), old(p).position())),
        decreases left(old(p).tokens(), old(p).position()), 1int,
    {
        let ghost ts = p.tokens();
        let ghost start = p.position();
        let name = match Identifier::parse(p) {
            Ok(n) => n,
            Err(e) => {
                return Err(e);
            },
        };
        let mut args: Vec<Expression> = Vec::new();
        assert(exprs_view(args@) =~= Seq::<Expr>::empty());
        loop
            invariant
                p.source() == old(p).source(),
                p.tokens() == ts,
                ts == old(p).tokens(),
                start == old(p).position(),
                start <= p.position(),
                parse_identifier(ts, start).outcome == Ok::<Seq<char>, Seq<char>>(name@),
                parse_call_operands(ts, p.position(), exprs_view(args@)) == parse_call_operands(
                    ts,
                    start,
                    Seq::empty(),
                ),
            decreases left(ts, p.position()),
        {
            if closes_call(p.peek()) {
                return Ok(Call { name, args });
            }
            p.step();
            match Expression::parse(p) {
                Ok(e) => {
                    proof {
                        lemma_exprs_push(args@, e);
                    }
                    args.push(e);
                },
                Err(e) => {
                    return Err(e);
                },
            }
        }
    }
}

fn operator_kind(v: &TokenValue) -> (k: Option<OperatorKind>)
    ensures
        k == operator_of(v@),
{
    match v {
        TokenValue::Equal => Some(OperatorKind::Equal),
        TokenValue::Plus => Some(OperatorKind::Add),
        TokenValue::Minus => Some(OperatorKind::Subtract),
        TokenValue::Asterisk => Some(OperatorKind::Multiply),
        TokenValue::Slash => Some(OperatorKind::Divide),
        TokenValue::Bang => Some(OperatorKind::Inverse),
        _ => None,
    }
}

impl Operator {
    /// An operator application, whose operator is at the cursor. An operand
    /// that fails to parse ends the operands; those read before it stand.
    pub fn parse(p: &mut Parser) -> (r: Result<Operator, Error>)
        ensures
            parsed(*old(p), *final(p), r, parse_operator(old(p).tokens(), old(p).position())),
        decreases left(old(p).tokens(), old(p).position()), 1int,
    {
        let ghost ts = p.tokens();
        let ghost start = p.position();
        let kind = match operator_kind(p.current()) {
            Some(k) => k,
            None => {
                return Err(complaint("unexpected token ", p.current()));
            },
        };
        let mut args: Vec<Expression> = Vec::new();
        assert(exprs_view(args@) =~= Seq::<Expr>::empty());
        loop
            invariant
                p.source() == old(p).source(),
                p.tokens() == ts,
                ts == old(p).tokens(),
                start == old(p).position(),
                start <= p.position(),
                operator_of(kind_at(ts, start)) == Some(kind),
                parse_operator_operands(ts, p.position(), exprs_view(args@))
                    == parse_operator_operands(ts, start, Seq::empty()),
            decreases left(ts, p.position()),
        {
            if closes_operands(p.peek()) {
                return Ok(Operator { kind, args });
            }
            p.step();
            match Expression::parse_non_call(p) {
                Ok(e) => {
                    proof {
                        lemma_exprs_push(args@, e);
                    }
                    args.push(e);
                },
                Err(_) => {
                    return Ok(Operator { kind, args });
                },
            }
        }
    }
}

impl Function {
    /// A function literal, whose opening brace is at the cursor.
    pub fn parse(p: &mut Parser) -> (r: Result<Function, Error>)
        ensures
            parsed(*old(p), *final(p), r, parse_function(old(p).tokens(), old(p).position())),
        decreases left(old(p).tokens(), old(p).position()), 1int,
    {
        let ghost ts = p.tokens();
        let ghost start = p.position();
        let mut params: Vec<Identifier> = Vec::new();
        assert(names_view(params@) =~= Seq::<Seq<char>>::empty());
        if let TokenValue::LeftBracket = p.peek() {
            p.step();
            loop
                invariant_except_break
                    parse_params(ts, p.position(), names_view(params@)) == parse_signature(
                        ts,
                        start,
                    ),
                invariant
                    p.source() == old(p).source(),
                    p.tokens() == ts,
                    ts == old(p).tokens(),
                    start == old(p).position(),
                    start < p.position(),
                ensures
                    parse_signature(ts, start) == (Parsed {
                        outcome: Ok::<Seq<Seq<char>>, Seq<char>>(names_view(params@)),
                        pos: p.position(),
                    }),
                decreases left(ts, p.position()),
            {
                p.step();
                match p.current() {
                    TokenValue::EOF => {
                        return Err(Error::new("unexpected end of file"));
                    },
                    TokenValue::RightBracket => {
                        break ;
                    },
                    TokenValue::Ident(value) => {
                        let name = Identifier { value: value.clone() };
                        proof {
                            lemma_names_push(params@, name);
                        }
                        params.push(name);
                    },
                    t => {
                        return Err(complaint("unexpected token ", t));
                    },
                }
            }
        }
        let ghost from = p.position();
        let mut body: Vec<Statement> = Vec::new();
        assert(stmts_view(body@) =~= Seq::<Stmt>::empty());
        loop
            invariant
                p.source() == old(p).source(),
                p.tokens() == ts,
                ts == old(p).tokens(),
                start == old(p).position(),
                start <= from <= p.position(),
                parse_signature(ts, start) == (Parsed {
                    outcome: Ok::<Seq<Seq<char>>, Seq<char>>(names_view(params@)),
                    pos: from,
                }),
                parse_block(ts, p.position(), stmts_view(body@)) == parse_block(
                    ts,
                    from,
                    Seq::empty(),
                ),
            decreases left(ts, p.position()),
        {
            match p.peek() {
                TokenValue::EOF => {
                    return Err(Error::new("unexpected end of file"));
                },
                TokenValue::Semicolon | TokenValue::Newline => {
                    p.step();
                },
                TokenValue::BlockEnd => {
                    p.step();
                    return Ok(Function { params, body });
                },
                _ => {
                    p.step();
                    match Statement::parse(p) {
                        Ok(s) => {
                            proof {
                                lemma_stmts_push(body@, s);
                            }
                            body.push(s);
                        },
                        Err(e) => {
                            return Err(e);
                        },
                    }
                },
            }
        }
    }
}

impl Statement {
    /// A statement at the cursor.
    pub fn parse(p: &mut Parser) -> (r: Result<Statement, Error>)
        ensures
            parsed(*old(p), *final(p), r, parse_statement(old(p).tokens(), old(p).position())),
        decreases left(old(p).tokens(), old(p).position()), 4int,
    {
        match p.current() {
            TokenValue::Assign => match Assign::parse(p) {
                Ok(v) => Ok(Statement::Assign(v)),
                Err(e) => Err(e),
            },
            TokenValue::If => match If::parse(p) {
                Ok(v) => Ok(Statement::If(v)),
                Err(e) => Err(e),
            },
            _ => match Expression::parse(p) {
                Ok(v) => Ok(Statement::Expression(v)),
                Err(e) => Err(e),
            },
        }
    }
}

impl Assign {
    /// An assignment, whose `=` is at the cursor.
    pub fn parse(p: &mut Parser) -> (r: Result<Assign, Error>)
        ensures
            parsed(*old(p), *final(p), r, parse_assign(old(p).tokens(), old(p).position())),
        decreases left(old(p).tokens(), old(p).position()), 3int,
    {
        p.step();
        let name = match Identifier::parse(p) {
            Ok(n) => n,
            Err(e) => {
                return Err(e);
            },
        };
        p.step();
        let value = match Expression::parse(p) {
            Ok(v) => v,
            Err(e) => {
                return Err(e);
            },
        };
        if separates(p.peek()) {
            Ok(Assign { name, value })
        } else {
            Err(complaint("unexpected token ", p.peek()))
        }
    }
}

/// The statements of a block of an `if`, whose opening brace is at the
/// cursor.
fn block(p: &mut Parser) -> (r: Result<Vec<Box<Statement>>, Error>)
    ensures
        final(p).source() == old(p).source(),
        final(p).tokens() == old(p).tokens(),
        final(p).position() == parse_block(old(p).tokens(), old(p).position(), Seq::empty()).pos,
        final(p).position() >= old(p).position(),
        match r {
            Ok(ss) => parse_block(old(p).tokens(), old(p).position(), Seq::empty()).outcome
                == Ok::<Seq<Stmt>, Seq<char>>(boxed_stmts_view(ss@)),
            Err(e) => parse_block(old(p).tokens(), old(p).position(), Seq::empty()).outcome
                == Err::<Seq<Stmt>, Seq<char>>(e@),
        },
    decreases left(old(p).tokens(), old(p).position()), 0int,
{
    let ghost ts = p.tokens();
    let ghost start = p.position();
    let mut stmts: Vec<Box<Statement>> = Vec::new();
    assert(boxed_stmts_view(stmts@) =~= Seq::<Stmt>::empty());
    loop
        invariant
            p.source() == old(p).source(),
            p.tokens() == ts,
            ts == old(p).tokens(),
            start == old(p).position(),
            start <= p.position(),
            parse_block(ts, p.position(), boxed_stmts_view(stmts@)) == parse_block(
                ts,
                start,
                Seq::empty(),
            ),
        decreases left(ts, p.position()),
    {
        match p.peek() {
            TokenValue::EOF => {
                return Err(Error::new("unexpected end of file"));
            },
            TokenValue::Semicolon | TokenValue::Newline => {
                p.step();
            },
            TokenValue::BlockEnd => {
                p.step();
                return Ok(stmts);
            },
            _ => {
                p.step();
                match Statement::parse(p) {
                    Ok(s) => {
                        let boxed = Box::new(s);
                        proof {
                            lemma_boxed_stmts_push(stmts@, boxed);
                        }
                        stmts.push(boxed);
                    },
                    Err(e) => {
                        return Err(e);
                    },
                }
            },
        }
    }
}

impl If {
    /// An `if`, whose keyword is at the cursor. `else` and a second block
    /// are read where `else` is the token behind the first block; where it
    /// is not, the `if` has no alternative and nothing more is consumed.
    pub fn parse(p: &mut Parser) -> (r: Result<If, Error>)
        ensures
            parsed(*old(p), *final(p), r, parse_if(old(p).tokens(), old(p).position())),
        decreases left(old(p).tokens(), old(p).position()), 3int,
    {
        if p.at_end() {
            return Err(complaint("unexpected token ", p.current()));
        }
        p.step();
        let condition = match Expression::parse(p) {
            Ok(c) => c,
            Err(e) => {
                return Err(e);
            },
        };
        p.step();
        if let TokenValue::BlockStart = p.current() {
        } else {
            return Err(complaint("expected block start; got ", p.current()));
        }
        let consequence = match block(p) {
            Ok(ss) => ss,
            Err(e) => {
                return Err(e);
            },
        };
        if let TokenValue::Else = p.peek() {
        } else {
            return Ok(If { condition, consequence, alternative: None });
        }
        p.step();
        p.step();
        if let TokenValue::BlockStart = p.current() {
        } else {
            return Err(complaint("expected block start; got ", p.current()));
        }
        match block(p) {
            Ok(alternative) => Ok(If { condition, consequence, alternative: Some(alternative) }),
            Err(e) => Err(e),
        }
    }
}

impl Program {
    /// A whole program, from the cursor to the end of the input.
    pub fn parse(p: &mut Parser) -> (r: Result<Program, Error>)
        ensures
            parsed(
                *old(p),
                *final(p),
                r,
                parse_statements(old(p).tokens(), old(p).position(), Seq::empty()),
            ),
    {
        let ghost ts = p.tokens();
        let ghost start = p.position();
        let mut statements: Vec<Statement> = Vec::new();
        assert(stmts_view(statements@) =~= Seq::<Stmt>::empty());
        loop
            invariant
                p.source() == old(p).source(),
                p.tokens() == ts,
                ts == old(p).tokens(),
                start == old(p).position(),
                start <= p.position(),
                parse_statements(ts, p.position(), stmts_view(statements@)) == parse_statements(
                    ts,
                    start,
                    Seq::empty(),
                ),
            decreases left(ts, p.position()),
        {
            match p.current() {
                TokenValue::EOF => {
                    return Ok(Program { statements });
                },
                TokenValue::Semicolon | TokenValue::Newline => {
                    p.step();
                },
                _ => {
                    match Statement::parse(p) {
                        Ok(s) => {
                            proof {
                                lemma_stmts_push(statements@, s);
                            }
                            statements.push(s);
                        },
                        Err(e) => {
                            return Err(e);
                        },
                    }
                    if let TokenValue::EOF = p.current() {
                        return Ok(Program { statements });
                    }
                    p.step();
                },
            }
        }
    }
}

impl Parse for Program {
    fn parse(p: &mut Parser) -> (r: Result<Program, Error>)
        ensures
            parsed(
                *old(p),
                *final(p),
                r,
                parse_statements(old(p).tokens(), old(p).position(), Seq::empty()),
            ),
    {
        Program::parse(p)
    }
}

impl Parse for Statement {
    fn parse(p: &mut Parser) -> (r: Result<Statement, Error>)
        ensures
            parsed(*old(p), *final(p), r, parse_statement(old(p).tokens(), old(p).position())),
    {
        Statement::parse(p)
    }
}

impl Parse for Assign {
    fn parse(p: &mut Parser) -> (r: Result<Assign, Error>)
        ensures
            parsed(*old(p), *final(p), r, parse_assign(old(p).tokens(), old(p).position())),
    {
        Assign::parse(p)
    }
}

impl Parse for If {
    fn parse(p: &mut Parser) -> (r: Result<If, Error>)
        ensures
            parsed(*old(p), *final(p), r, parse_if(old(p).tokens(), old(p).position())),
    {
        If::parse(p)
    }
}

impl Parse for Expression {
    fn parse(p: &mut Parser) -> (r: Result<Expression, Error>)
        ensures
            parsed(*old(p), *final(p), r, parse_expr(old(p).tokens(), old(p).position(), true)),
    {
        Expression::parse(p)
    }
}

impl Parse for Primitive {
    fn parse(p: &mut Parser) -> (r: Result<Primitive, Error>)
        ensures
            parsed(*old(p), *final(p), r, parse_primitive(old(p).tokens(), old(p).position())),
    {
        Primitive::parse(p)
    }
}

impl Parse for Identifier {
    fn parse(p: &mut Parser) -> (r: Result<Identifier, Error>)
        ensures
            parsed(*old(p), *final(p), r, parse_identifier(old(p).tokens(), old(p).position())),
    {
        Identifier::parse(p)
    }
}

impl Parse for Operator {
    fn parse(p: &mut Parser) -> (r: Result<Operator, Error>)
        ensures
            parsed(*old(p), *final(p), r, parse_operator(old(p).tokens(), old(p).position())),
    {
        Operator::parse(p)
    }
}

impl Parse for Function {
    fn parse(p: &mut Parser) -> (r: Result<Function, Error>)
        ensures
            parsed(*old(p), *final(p), r, parse_function(old(p).tokens(), old(p).position())),
    {
        Function::parse(p)
    }
}

impl Parse for Call {
    fn parse(p: &mut Parser) -> (r: Result<Call, Error>)
        ensures
            parsed(*old(p), *final(p), r, parse_call(old(p).tokens(), old(p).position())),
    {
        Call::parse(p)
    }
}

impl Parse for And {
    fn parse(p: &mut Parser) -> (r: Result<And, Error>)
        ensures
            parsed(*old(p), *final(p), r, parse_and(old(p).tokens(), old(p).position())),
    {
        And::parse(p)
    }
}

impl Parse for Or {
    fn parse(p: &mut Parser) -> (r: Result<Or, Error>)
        ensures
            parsed(*old(p), *final(p), r, parse_or(old(p).tokens(), old(p).position())),
    {
        Or::parse(p)
    }
}

} // verus!
