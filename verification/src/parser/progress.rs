//! The cursor never moves backwards.
//!
//! Every function of the grammar leaves the cursor at or behind the
//! position at which it began. This is what makes the lower bounds that
//! the grammar puts on the positions it continues from hold of themselves.

use vstd::prelude::*;
use crate::lexer::token::Lexeme;
use super::ast::{Expr, Stmt};
use super::grammar::{
    Parsed,
    advance, at_least, ends_call, ends_operands, is_separator, kind_at, left, parse_and,
    parse_block, parse_call, parse_call_operands, parse_else, parse_expr,
    parse_function, parse_identifier, parse_if, parse_operands, parse_operator,
    parse_operator_operands, parse_or, parse_params, parse_signature, parse_statement,
    parse_statements,
};

verus! {

/// An expression ends at or behind where it begins.
pub proof fn law_expression_moves_forward(ts: Seq<Lexeme>, pos: int, calls: bool)
    ensures
        parse_expr(ts, pos, calls).pos >= pos,
    decreases left(ts, pos), 2int,
{
    match kind_at(ts, pos) {
        Lexeme::LeftParen => {
            let inner = advance(ts, pos);
            if !(kind_at(ts, inner) is RightParen) {
                law_expression_moves_forward(ts, inner, true);
            }
        },
        Lexeme::And => {
            lemma_operands_move_forward(ts, pos, Seq::empty());
        },
        Lexeme::Or => {
            lemma_operands_move_forward(ts, pos, Seq::empty());
        },
        Lexeme::BlockStart => {
            lemma_function_moves_forward(ts, pos);
        },
        Lexeme::Ident(_) => {
            if calls && !is_separator(kind_at(ts, pos + 1)) {
                lemma_call_moves_forward(ts, pos);
            }
        },
        Lexeme::Equal | Lexeme::Plus | Lexeme::Minus | Lexeme::Asterisk | Lexeme::Slash | Lexeme::Bang => {
            lemma_operator_moves_forward(ts, pos);
        },
        _ => {},
    }
}

proof fn lemma_operands_move_forward(ts: Seq<Lexeme>, pos: int, acc: Seq<Expr>)
    ensures
        parse_operands(ts, pos, acc).pos >= pos,
        parse_and(ts, pos).pos == parse_operands(ts, pos, Seq::empty()).pos,
        parse_or(ts, pos).pos == parse_operands(ts, pos, Seq::empty()).pos,
    decreases left(ts, pos), 0int,
{
    if !ends_operands(kind_at(ts, pos + 1)) {
        law_expression_moves_forward(ts, pos + 1, true);
        let r = parse_expr(ts, pos + 1, true);
        if let Ok(e) = r.outcome {
            lemma_operands_move_forward(ts, at_least(pos + 1, r.pos), acc.push(e));
        }
    }
}

proof fn lemma_call_operands_move_forward(ts: Seq<Lexeme>, pos: int, acc: Seq<Expr>)
    ensures
        parse_call_operands(ts, pos, acc).pos >= pos,
    decreases left(ts, pos), 0int,
{
    if !ends_call(kind_at(ts, pos + 1)) {
        law_expression_moves_forward(ts, pos + 1, true);
        let r = parse_expr(ts, pos + 1, true);
        if let Ok(e) = r.outcome {
            lemma_call_operands_move_forward(ts, at_least(pos + 1, r.pos), acc.push(e));
        }
    }
}

proof fn lemma_call_moves_forward(ts: Seq<Lexeme>, pos: int)
    ensures
        parse_call(ts, pos).pos >= pos,
    decreases left(ts, pos), 1int,
{
    lemma_call_operands_move_forward(ts, pos, Seq::empty());
}

proof fn lemma_operator_operands_move_forward(ts: Seq<Lexeme>, pos: int, acc: Seq<Expr>)
    ensures
        parse_operator_operands(ts, pos, acc).1 >= pos,
    decreases left(ts, pos), 0int,
{
    if !ends_operands(kind_at(ts, pos + 1)) {
        law_expression_moves_forward(ts, pos + 1, false);
        let r = parse_expr(ts, pos + 1, false);
        if let Ok(e) = r.outcome {
            lemma_operator_operands_move_forward(ts, at_least(pos + 1, r.pos), acc.push(e));
        }
    }
}

proof fn lemma_operator_moves_forward(ts: Seq<Lexeme>, pos: int)
    ensures
        parse_operator(ts, pos).pos >= pos,
    decreases left(ts, pos), 1int,
{
    lemma_operator_operands_move_forward(ts, pos, Seq::empty());
}

proof fn lemma_params_move_forward(ts: Seq<Lexeme>, pos: int, acc: Seq<Seq<char>>)
    ensures
        parse_params(ts, pos, acc).pos >= pos,
    decreases left(ts, pos),
{
    let next = advance(ts, pos);
    if let Lexeme::Ident(name) = kind_at(ts, next) {
        lemma_params_move_forward(ts, next, acc.push(name));
    }
}

proof fn lemma_function_moves_forward(ts: Seq<Lexeme>, pos: int)
    ensures
        parse_function(ts, pos).pos >= pos,
    decreases left(ts, pos), 1int,
{
    if kind_at(ts, pos + 1) is LeftBracket {
        lemma_params_move_forward(ts, pos + 1, Seq::empty());
    }
    let params = parse_signature(ts, pos);
    if params.outcome is Ok {
        lemma_block_moves_forward(ts, at_least(pos, params.pos), Seq::empty());
    }
}

/// A statement ends at or behind where it begins.
pub proof fn law_statement_moves_forward(ts: Seq<Lexeme>, pos: int)
    ensures
        parse_statement(ts, pos).pos >= pos,
    decreases left(ts, pos), 4int,
{
    match kind_at(ts, pos) {
        Lexeme::Assign => {
            let at_name = advance(ts, pos);
            if parse_identifier(ts, at_name).outcome is Ok {
                law_expression_moves_forward(ts, at_name + 1, true);
            }
        },
        Lexeme::If => {
            lemma_if_moves_forward(ts, pos);
        },
        _ => {
            law_expression_moves_forward(ts, pos, true);
        },
    }
}

proof fn lemma_if_moves_forward(ts: Seq<Lexeme>, pos: int)
    ensures
        parse_if(ts, pos).pos >= pos,
    decreases left(ts, pos), 3int,
{
    if 0 <= pos < ts.len() {
        law_expression_moves_forward(ts, pos + 1, true);
        let c = parse_expr(ts, pos + 1, true);
        if let Ok(condition) = c.outcome {
            let open = advance(ts, at_least(pos + 1, c.pos));
            if kind_at(ts, open) is BlockStart {
                lemma_block_moves_forward(ts, open, Seq::empty());
                let first = parse_block(ts, open, Seq::empty());
                if let Ok(consequence) = first.outcome {
                    lemma_else_moves_forward(ts, at_least(open, first.pos), condition, consequence);
                }
            }
        }
    }
}

proof fn lemma_else_moves_forward(
    ts: Seq<Lexeme>,
    pos: int,
    condition: Expr,
    consequence: Seq<Stmt>,
)
    ensures
        parse_else(ts, pos, condition, consequence).pos >= pos,
    decreases left(ts, pos), 1int,
{
    if kind_at(ts, pos + 1) is Else {
        let open = advance(ts, pos + 1);
        if kind_at(ts, open) is BlockStart {
            lemma_block_moves_forward(ts, open, Seq::empty());
        }
    }
}

proof fn lemma_block_moves_forward(ts: Seq<Lexeme>, pos: int, acc: Seq<Stmt>)
    ensures
        parse_block(ts, pos, acc).pos >= pos,
    decreases left(ts, pos), 0int,
{
    match kind_at(ts, pos + 1) {
        Lexeme::EOF => {},
        Lexeme::Semicolon | Lexeme::Newline => {
            lemma_block_moves_forward(ts, pos + 1, acc);
        },
        Lexeme::BlockEnd => {},
        _ => {
            law_statement_moves_forward(ts, pos + 1);
            let r = parse_statement(ts, pos + 1);
            if let Ok(s) = r.outcome {
                lemma_block_moves_forward(ts, at_least(pos + 1, r.pos), acc.push(s));
            }
        },
    }
}

/// A program ends at or behind where it begins.
pub proof fn law_program_moves_forward(ts: Seq<Lexeme>, pos: int, acc: Seq<Stmt>)
    ensures
        parse_statements(ts, pos, acc).pos >= pos,
    decreases left(ts, pos), 5int,
{
    match kind_at(ts, pos) {
        Lexeme::EOF => {},
        Lexeme::Semicolon | Lexeme::Newline => {
            law_program_moves_forward(ts, pos + 1, acc);
        },
        _ => {
            law_statement_moves_forward(ts, pos);
            let r = parse_statement(ts, pos);
            if let Ok(s) = r.outcome {
                let end = at_least(pos, r.pos);
                if !(kind_at(ts, end) is EOF) {
                    law_program_moves_forward(ts, end + 1, acc.push(s));
                }
            }
        },
    }
}

/// An `if` without `else`: where the condition and the block parse and the
/// token behind the block's closing brace is not `else`, the `if` parses,
/// it has no alternative, and the cursor stays on the closing brace.
pub proof fn law_if_without_else(ts: Seq<Lexeme>, pos: int)
    requires
        0 <= pos < ts.len(),
        parse_expr(ts, pos + 1, true).outcome is Ok,
        kind_at(ts, advance(ts, parse_expr(ts, pos + 1, true).pos)) is BlockStart,
        parse_block(
            ts,
            advance(ts, parse_expr(ts, pos + 1, true).pos),
            Seq::empty(),
        ).outcome is Ok,
        !(kind_at(
            ts,
            parse_block(ts, advance(ts, parse_expr(ts, pos + 1, true).pos), Seq::empty()).pos + 1,
        ) is Else),
    ensures
        parse_if(ts, pos) == ({
            let condition = parse_expr(ts, pos + 1, true);
            let block = parse_block(ts, advance(ts, condition.pos), Seq::empty());
            Parsed {
                outcome: Ok::<Stmt, Seq<char>>(
                    Stmt::If(condition.outcome->Ok_0, block.outcome->Ok_0, None),
                ),
                pos: block.pos,
            }
        }),
{
    law_expression_moves_forward(ts, pos + 1, true);
    let open = advance(ts, parse_expr(ts, pos + 1, true).pos);
    lemma_block_moves_forward(ts, open, Seq::empty());
}

/// A block that parses ends on its closing brace: a function literal and
/// an `if` end on their last token, as every other statement does.
pub proof fn law_blocks_end_on_their_brace(ts: Seq<Lexeme>, pos: int, acc: Seq<Stmt>)
    ensures
        parse_block(ts, pos, acc).outcome is Ok ==> kind_at(ts, parse_block(ts, pos, acc).pos)
            is BlockEnd,
    decreases left(ts, pos), 0int,
{
    match kind_at(ts, pos + 1) {
        Lexeme::EOF => {},
        Lexeme::Semicolon | Lexeme::Newline => {
            law_blocks_end_on_their_brace(ts, pos + 1, acc);
        },
        Lexeme::BlockEnd => {},
        _ => {
            let r = parse_statement(ts, pos + 1);
            if let Ok(s) = r.outcome {
                law_blocks_end_on_their_brace(ts, at_least(pos + 1, r.pos), acc.push(s));
            }
        },
    }
}

} // verus!
