//! Laws of the interpreter: what holds of every text, every program and every
//! scope, proved from the models that the contracts speak of.

use vstd::prelude::*;
use crate::eval::semantics::{
    apply_operator, arity_fits, bind_arguments, boolean, concat_from, divide_from, eval_block,
    eval_expr, eval_operands, eval_program, eval_stmt, fail, first_misfit, in_range, lookup, misfit, null,
    quotient, same_kind, sum_from, truthy, wants_no_argument, wrong_arity, Frame, Stop, Val,
    CALL_DEPTH,
};
use crate::lexer::model::{
    is_digit, is_ident_char, lex_from, lex_text, scan_ident, scan_number, step, word,
};
use crate::lexer::token::Lexeme;
use crate::parser::ast::{Expr, OperatorKind, Prim, Stmt};
use crate::parser::grammar::{kind_at, parse_expr, parse_program, parse_statement, parse_statements};
use crate::repl::run;
use crate::text::{digits_value, integer_value};

verus! {

/// The digits of a number literal: its characters without the underscores.
pub open spec fn digits_of(s: Seq<char>) -> Seq<char>
    decreases s.len(),
{
    if s.len() == 0 {
        Seq::empty()
    } else if s[0] == '_' {
        digits_of(s.skip(1))
    } else {
        seq![s[0]] + digits_of(s.skip(1))
    }
}

/// A text that writes an integer literal: a digit, and then digits and
/// underscores only.
pub open spec fn is_integer_literal(s: Seq<char>) -> bool {
    &&& s.len() > 0
    &&& is_digit(s[0])
    &&& forall|i: int| 0 <= i < s.len() ==> is_digit(#[trigger] s[i]) || s[i] == '_'
}

/// The digits of a text of digits and underscores are digits.
proof fn lemma_digits_of_are_digits(s: Seq<char>)
    requires
        forall|i: int| 0 <= i < s.len() ==> is_digit(#[trigger] s[i]) || s[i] == '_',
    ensures
        forall|i: int| 0 <= i < digits_of(s).len() ==> is_digit(#[trigger] digits_of(s)[i]),
        s.len() > 0 && is_digit(s[0]) ==> digits_of(s).len() > 0 && digits_of(s)[0] == s[0],
    decreases s.len(),
{
    if s.len() > 0 {
        let rest = s.skip(1);
        assert forall|i: int| 0 <= i < rest.len() implies is_digit(#[trigger] rest[i]) || rest[i]
            == '_' by {
            assert(rest[i] == s[i + 1]);
        }
        lemma_digits_of_are_digits(rest);
        assert(is_digit(s[0]) || s[0] == '_');
        assert forall|i: int| 0 <= i < digits_of(s).len() implies is_digit(
            #[trigger] digits_of(s)[i],
        ) by {
            if s[0] != '_' && i > 0 {
                assert(digits_of(s)[i] == digits_of(rest)[i - 1]);
            }
        }
    }
}

/// A run of digits writes no negative number.
proof fn lemma_digits_value_is_natural(s: Seq<char>)
    requires
        forall|i: int| 0 <= i < s.len() ==> is_digit(#[trigger] s[i]),
    ensures
        digits_value(s) >= 0,
    decreases s.len(),
{
    if s.len() > 0 {
        let front = s.drop_last();
        assert forall|i: int| 0 <= i < front.len() implies is_digit(#[trigger] front[i]) by {
            assert(front[i] == s[i]);
        }
        lemma_digits_value_is_natural(front);
        assert(is_digit(s[s.len() - 1]));
    }
}

/// Scanning digits and underscores up to the end of the text gives the
/// integer token of the digits.
proof fn lemma_scan_integer(s: Seq<char>, pos: int, acc: Seq<char>)
    requires
        0 <= pos <= s.len(),
        forall|i: int| pos <= i < s.len() ==> is_digit(#[trigger] s[i]) || s[i] == '_',
    ensures
        scan_number(s, pos, acc, false) == (
            Lexeme::Integer(acc + digits_of(s.skip(pos))),
            s.len() as int,
        ),
    decreases s.len() - pos,
{
    if pos < s.len() {
        let c = s[pos];
        let rest = s.skip(pos);
        assert(rest[0] == c);
        assert(rest.skip(1) =~= s.skip(pos + 1));
        if is_digit(c) {
            lemma_scan_integer(s, pos + 1, acc.push(c));
            assert(acc.push(c) + digits_of(s.skip(pos + 1)) =~= acc + digits_of(rest));
        } else {
            lemma_scan_integer(s, pos + 1, acc);
        }
    } else {
        assert(s.skip(pos) =~= Seq::<char>::empty());
        assert(acc + digits_of(s.skip(pos)) =~= acc);
    }
}

/// The token stream of every text ends with an end-of-input token.
pub proof fn law_tokens_end_with_eof(s: Seq<char>, pos: int)
    ensures
        lex_from(s, pos).len() > 0,
        lex_from(s, pos).last() == Lexeme::EOF,
    decreases s.len() - pos,
{
    if 0 <= pos < s.len() {
        let end = step(s, pos).1;
        if pos < end <= s.len() {
            law_tokens_end_with_eof(s, end);
        }
    }
}

/// Scanning letters and underscores up to the end of the text gives the
/// token of the word that they write.
proof fn lemma_scan_word(s: Seq<char>, pos: int, acc: Seq<char>)
    requires
        0 <= pos <= s.len(),
        forall|i: int| pos <= i < s.len() ==> is_ident_char(#[trigger] s[i]),
    ensures
        scan_ident(s, pos, acc) == (word(acc + s.skip(pos)), s.len() as int),
    decreases s.len() - pos,
{
    if pos < s.len() {
        lemma_scan_word(s, pos + 1, acc.push(s[pos]));
        assert(acc.push(s[pos]) + s.skip(pos + 1) =~= acc + s.skip(pos));
    } else {
        assert(acc + s.skip(pos) =~= acc);
    }
}

/// A run of letters and underscores alone lexes to one token and the end
/// of input: the keyword that it writes, or else an identifier.
pub proof fn law_word_tokens(text: Seq<char>)
    requires
        text.len() > 0,
        forall|i: int| 0 <= i < text.len() ==> is_ident_char(#[trigger] text[i]),
    ensures
        lex_text(text) == seq![word(text), Lexeme::EOF],
{
    lemma_scan_word(text, 0, Seq::empty());
    assert(Seq::<char>::empty() + text.skip(0) =~= text);
    assert(is_ident_char(text[0]));
    assert(lex_from(text, text.len() as int) =~= seq![Lexeme::EOF]);
    assert(lex_text(text) =~= seq![word(text), Lexeme::EOF]);
}

/// An integer literal alone lexes to its token and the end of input.
pub proof fn law_integer_literal_tokens(text: Seq<char>)
    requires
        is_integer_literal(text),
    ensures
        lex_text(text) == seq![Lexeme::Integer(digits_of(text)), Lexeme::EOF],
{
    lemma_scan_integer(text, 0, Seq::empty());
    assert(text.skip(0) =~= text);
    assert(Seq::<char>::empty() + digits_of(text) =~= digits_of(text));
    assert(lex_from(text, text.len() as int) =~= seq![Lexeme::EOF]);
    assert(lex_text(text) =~= seq![Lexeme::Integer(digits_of(text)), Lexeme::EOF]);
}

/// Every integer literal that a 64-bit signed integer can hold evaluates to
/// the integer that its digits write, in every scope, and leaves the scope
/// as it was.
pub proof fn law_integer_literal_value(text: Seq<char>, frame: Frame, outer: Seq<Frame>)
    requires
        is_integer_literal(text),
        digits_value(digits_of(text)) <= i64::MAX,
    ensures
        run(text, frame, outer) == (
            Ok::<Val, Stop>(Val::Primitive(Prim::Integer(digits_value(digits_of(text))))),
            frame,
        ),
{
    let digits = digits_of(text);
    let value = digits_value(digits);
    let ts = seq![Lexeme::Integer(digits), Lexeme::EOF];
    let e = Expr::Primitive(Prim::Integer(value));
    let program = seq![Stmt::Expression(e)];
    law_integer_literal_tokens(text);
    lemma_digits_of_are_digits(text);
    lemma_digits_value_is_natural(digits);
    assert(integer_value(digits) == Some(value));
    assert(kind_at(ts, 0) == Lexeme::Integer(digits));
    assert(kind_at(ts, 1) == Lexeme::EOF);
    assert(parse_expr(ts, 0, true).outcome == Ok::<Expr, Seq<char>>(e));
    assert(parse_expr(ts, 0, true).pos == 0);
    assert(parse_statement(ts, 0).outcome == Ok::<Stmt, Seq<char>>(Stmt::Expression(e)));
    assert(parse_statement(ts, 0).pos == 0);
    assert(Seq::<Stmt>::empty().push(Stmt::Expression(e)) =~= program);
    assert(parse_statements(ts, 1, program).outcome == Ok::<Seq<Stmt>, Seq<char>>(program));
    assert(parse_statements(ts, 0, Seq::empty()).outcome == Ok::<Seq<Stmt>, Seq<char>>(program));
    assert(parse_program(ts) == Ok::<Seq<Stmt>, Seq<char>>(program));
    assert(eval_stmt(program[0], frame, outer) == (
        Ok::<Val, Stop>(Val::Primitive(Prim::Integer(value))),
        frame,
    ));
    assert(eval_block(program, frame, outer, 1, Val::Primitive(Prim::Integer(value))) == (
        Ok::<Val, Stop>(Val::Primitive(Prim::Integer(value))),
        frame,
    ));
    assert(eval_block(program, frame, outer, 0, null()) == (
        Ok::<Val, Stop>(Val::Primitive(Prim::Integer(value))),
        frame,
    ));
}

/// A name reads as it was last bound in the scope's own frame, whatever
/// the scopes around it hold; binding it changes how no other name reads,
/// and leaves the scopes around as they are.
pub proof fn law_binding_shadows(
    frame: Frame,
    outer: Seq<Frame>,
    x: Seq<char>,
    v: Val,
    y: Seq<char>,
)
    ensures
        lookup(frame.insert(x, v), outer, x) == Some(v),
        y != x ==> lookup(frame.insert(x, v), outer, y) == lookup(frame, outer, y),
{
}

/// An `if` that does not fail gives null, whatever its branches give.
pub proof fn law_if_gives_null(
    c: Expr,
    consequence: Seq<Stmt>,
    alternative: Option<Seq<Stmt>>,
    frame: Frame,
    outer: Seq<Frame>,
)
    ensures
        eval_stmt(Stmt::If(c, consequence, alternative), frame, outer).0 is Ok ==> eval_stmt(
            Stmt::If(c, consequence, alternative),
            frame,
            outer,
        ).0 == Ok::<Val, Stop>(null()),
{
}

/// An `if` and then a read of the name that its branches assign: the read
/// gives what the branch that the condition picks has assigned, for every
/// condition, every pair of values and every scope.
pub proof fn law_if_assigns_in_the_same_scope(
    c: Prim,
    x: Seq<char>,
    a: Prim,
    b: Prim,
    frame: Frame,
    outer: Seq<Frame>,
)
    ensures
        eval_program(
            seq![
                Stmt::If(
                    Expr::Primitive(c),
                    seq![Stmt::Assign(x, Expr::Primitive(a))],
                    Some(seq![Stmt::Assign(x, Expr::Primitive(b))]),
                ),
                Stmt::Expression(Expr::Identifier(x)),
            ],
            frame,
            outer,
        ) == (
            Ok::<Val, Stop>(
                Val::Primitive(
                    if truthy(c) {
                        a
                    } else {
                        b
                    },
                ),
            ),
            frame.insert(
                x,
                Val::Primitive(
                    if truthy(c) {
                        a
                    } else {
                        b
                    },
                ),
            ),
        ),
{
    let picked = if truthy(c) {
        a
    } else {
        b
    };
    let branch = seq![Stmt::Assign(x, Expr::Primitive(picked))];
    let after = frame.insert(x, Val::Primitive(picked));
    let first = Stmt::If(
        Expr::Primitive(c),
        seq![Stmt::Assign(x, Expr::Primitive(a))],
        Some(seq![Stmt::Assign(x, Expr::Primitive(b))]),
    );
    let program = seq![first, Stmt::Expression(Expr::Identifier(x))];
    assert(eval_stmt(branch[0], frame, outer) == (Ok::<Val, Stop>(Val::Primitive(picked)), after));
    assert(eval_block(branch, after, outer, 1, Val::Primitive(picked)) == (
        Ok::<Val, Stop>(Val::Primitive(picked)),
        after,
    ));
    assert(eval_block(branch, frame, outer, 0, null()) == (
        Ok::<Val, Stop>(Val::Primitive(picked)),
        after,
    ));
    assert(eval_stmt(first, frame, outer) == (Ok::<Val, Stop>(null()), after));
    assert(program[0] == first);
    assert(eval_stmt(program[1], after, outer) == (Ok::<Val, Stop>(Val::Primitive(picked)), after));
    assert(eval_block(program, after, outer, 2, Val::Primitive(picked)) == (
        Ok::<Val, Stop>(Val::Primitive(picked)),
        after,
    ));
    assert(eval_block(program, after, outer, 1, null()) == (
        Ok::<Val, Stop>(Val::Primitive(picked)),
        after,
    ));
    assert(eval_block(program, frame, outer, 0, null()) == (
        Ok::<Val, Stop>(Val::Primitive(picked)),
        after,
    ));
}

/// In the scope of a call, a name that the call's own frame does not bind
/// reads as it reads in the caller's scope at the time of the call.
pub proof fn law_callee_reads_the_caller(
    inner: Frame,
    frame: Frame,
    outer: Seq<Frame>,
    x: Seq<char>,
)
    requires
        !inner.contains_key(x),
    ensures
        lookup(inner, seq![frame] + outer, x) == lookup(frame, outer, x),
{
    assert((seq![frame] + outer).skip(1) =~= outer);
}

/// Binding arguments binds parameters and nothing else.
proof fn lemma_arguments_bind_parameters(
    params: Seq<Seq<char>>,
    args: Seq<Expr>,
    inner: Frame,
    around: Seq<Frame>,
    i: int,
    x: Seq<char>,
)
    requires
        0 <= i,
        !params.contains(x),
        !inner.contains_key(x),
    ensures
        bind_arguments(params, args, inner, around, i) matches Ok(bound) ==> !bound.contains_key(
            x,
        ),
    decreases args.len() - i,
{
    if i < args.len() && i < params.len() {
        match eval_expr(args[i], inner, around) {
            Ok(v) => {
                assert(params.contains(params[i]));
                lemma_arguments_bind_parameters(
                    params,
                    args,
                    inner.insert(params[i], v),
                    around,
                    i + 1,
                    x,
                );
            },
            Err(_) => {},
        }
    }
}

/// A function whose body reads a name that is none of its parameters
/// gives, when called, what the name is bound to in the caller's scope at
/// the time of the call, and fails as undefined only where the caller's
/// scope does not bind the name either.
pub proof fn law_call_sees_the_callers_bindings(
    f: Seq<char>,
    params: Seq<Seq<char>>,
    args: Seq<Expr>,
    x: Seq<char>,
    frame: Frame,
    outer: Seq<Frame>,
)
    requires
        lookup(frame, outer, f) == Some(
            Val::Function(params, seq![Stmt::Expression(Expr::Identifier(x))]),
        ),
        arity_fits(params.len(), args),
        outer.len() < CALL_DEPTH,
        !params.contains(x),
        bind_arguments(params, args, Map::empty(), seq![frame] + outer, 0) is Ok,
    ensures
        eval_expr(Expr::Call(f, args), frame, outer) == match lookup(frame, outer, x) {
            Some(v) => Ok::<Val, Stop>(v),
            None => fail("undefined variable "@ + x),
        },
{
    let around = seq![frame] + outer;
    let body = seq![Stmt::Expression(Expr::Identifier(x))];
    let bound = bind_arguments(params, args, Map::empty(), around, 0)->Ok_0;
    lemma_arguments_bind_parameters(params, args, Map::empty(), around, 0, x);
    law_callee_reads_the_caller(bound, frame, outer, x);
    let read = eval_expr(Expr::Identifier(x), bound, around);
    assert(eval_stmt(body[0], bound, around) == (read, bound));
    match read {
        Ok(v) => {
            assert(eval_block(body, bound, around, 1, v) == (Ok::<Val, Stop>(v), bound));
            assert(eval_block(body, bound, around, 0, null()).0 == read);
        },
        Err(_) => {
            assert(eval_block(body, bound, around, 0, null()).0 == read);
        },
    }
}

/// `+` on three strings is their concatenation in the order of the
/// operands.
pub proof fn law_add_concatenates(a: Seq<char>, b: Seq<char>, c: Seq<char>)
    ensures
        apply_operator(
            OperatorKind::Add,
            seq![Prim::String(a), Prim::String(b), Prim::String(c)],
        ) == Ok::<Val, Stop>(Val::Primitive(Prim::String(a + b + c))),
{
    let vals = seq![Prim::String(a), Prim::String(b), Prim::String(c)];
    reveal_with_fuel(first_misfit, 4);
    reveal_with_fuel(concat_from, 4);
    assert(first_misfit(vals, 1, false) == 3);
    assert(concat_from(vals, 1, a) == a + b + c);
}

/// `+` on three integers is their sum, where each partial sum is one that
/// a 64-bit signed integer can hold.
pub proof fn law_add_sums(a: int, b: int, c: int)
    requires
        in_range(a + b),
        in_range(a + b + c),
    ensures
        apply_operator(
            OperatorKind::Add,
            seq![Prim::Integer(a), Prim::Integer(b), Prim::Integer(c)],
        ) == Ok::<Val, Stop>(Val::Primitive(Prim::Integer(a + b + c))),
{
    let vals = seq![Prim::Integer(a), Prim::Integer(b), Prim::Integer(c)];
    reveal_with_fuel(first_misfit, 4);
    reveal_with_fuel(sum_from, 4);
    assert(first_misfit(vals, 1, false) == 3);
    assert(sum_from(vals, 1, a) == Ok::<Val, Stop>(Val::Primitive(Prim::Integer(a + b + c))));
}

/// An integer divided by zero is an error, whatever the integer: division
/// of zero by zero for zero, division to infinity for one, and the
/// machine's refusal for every other.
pub proof fn law_division_by_zero_fails(a: int)
    ensures
        apply_operator(OperatorKind::Divide, seq![Prim::Integer(a), Prim::Integer(0)]) == fail::<
            Val,
        >(
            if a == 0 {
                "cannot divide 0 by 0"@
            } else if a == 1 {
                "infinity division"@
            } else {
                "attempt to divide by zero"@
            },
        ),
{
    let vals = seq![Prim::Integer(a), Prim::Integer(0)];
    reveal_with_fuel(divide_from, 3);
    assert(vals[1] == Prim::Integer(0));
}

/// An integer divided by another that is not zero is their quotient
/// rounded towards zero, where a 64-bit signed integer can hold it.
pub proof fn law_division(a: int, b: int)
    requires
        b != 0,
        in_range(quotient(a, b)),
    ensures
        apply_operator(OperatorKind::Divide, seq![Prim::Integer(a), Prim::Integer(b)]) == Ok::<
            Val,
            Stop,
        >(Val::Primitive(Prim::Integer(quotient(a, b)))),
{
    let vals = seq![Prim::Integer(a), Prim::Integer(b)];
    reveal_with_fuel(divide_from, 3);
    assert(vals[1] == Prim::Integer(b));
}

/// `==` on two primitives: null equals null and nothing else, two
/// integers, strings or booleans are equal where they are the same, and
/// two of different types, neither of them null, are an error.
pub proof fn law_equality(a: Prim, b: Prim)
    requires
        !(a is Float && b is Float),
    ensures
        apply_operator(OperatorKind::Equal, seq![a, b]) == if a is Null || b is Null {
            Ok::<Val, Stop>(boolean(a is Null && b is Null))
        } else if same_kind(a, b) {
            Ok::<Val, Stop>(boolean(a == b))
        } else {
            fail::<Val>(misfit(OperatorKind::Equal, a, b))
        },
{
    let vals = seq![a, b];
    reveal_with_fuel(first_misfit, 3);
    assert(vals[1] == b);
    assert(vals.last() == b);
}

/// A call with a number of arguments that the function does not take
/// fails, whatever the arguments are, and the message names the function,
/// and the number of its parameters where it has any.
pub proof fn law_wrong_arity_fails(
    f: Seq<char>,
    params: Seq<Seq<char>>,
    body: Seq<Stmt>,
    args: Seq<Expr>,
    frame: Frame,
    outer: Seq<Frame>,
)
    requires
        lookup(frame, outer, f) == Some(Val::Function(params, body)),
        !arity_fits(params.len(), args),
    ensures
        eval_expr(Expr::Call(f, args), frame, outer) == fail::<Val>(
            if params.len() == 0 && args.len() == 1 {
                wants_no_argument(f)
            } else {
                wrong_arity(f, params.len())
            },
        ),
{
}

/// A function of two parameters that adds them, called with two integers,
/// gives their sum: each argument is bound to its parameter, and the body
/// reads them in the call's own scope.
pub proof fn law_call_binds_arguments(
    f: Seq<char>,
    a: Seq<char>,
    b: Seq<char>,
    x: int,
    y: int,
    frame: Frame,
    outer: Seq<Frame>,
)
    requires
        a != b,
        in_range(x + y),
        outer.len() < CALL_DEPTH,
        lookup(frame, outer, f) == Some(
            Val::Function(
                seq![a, b],
                seq![
                    Stmt::Expression(
                        Expr::Operator(
                            OperatorKind::Add,
                            seq![Expr::Identifier(a), Expr::Identifier(b)],
                        ),
                    ),
                ],
            ),
        ),
    ensures
        eval_expr(
            Expr::Call(
                f,
                seq![Expr::Primitive(Prim::Integer(x)), Expr::Primitive(Prim::Integer(y))],
            ),
            frame,
            outer,
        ) == Ok::<Val, Stop>(Val::Primitive(Prim::Integer(x + y))),
{
    let params = seq![a, b];
    let operands = seq![Expr::Identifier(a), Expr::Identifier(b)];
    let sum = Expr::Operator(OperatorKind::Add, operands);
    let body = seq![Stmt::Expression(sum)];
    let args = seq![Expr::Primitive(Prim::Integer(x)), Expr::Primitive(Prim::Integer(y))];
    let around = seq![frame] + outer;
    let vx = Val::Primitive(Prim::Integer(x));
    let vy = Val::Primitive(Prim::Integer(y));
    let one = Map::<Seq<char>, Val>::empty().insert(a, vx);
    let both = one.insert(b, vy);
    let vals = seq![Prim::Integer(x), Prim::Integer(y)];
    let total = Val::Primitive(Prim::Integer(x + y));

    assert(bind_arguments(params, args, both, around, 2) == Ok::<Frame, Stop>(both));
    assert(eval_expr(args[1], one, around) == Ok::<Val, Stop>(vy));
    assert(bind_arguments(params, args, one, around, 1) == Ok::<Frame, Stop>(both));
    assert(eval_expr(args[0], Map::empty(), around) == Ok::<Val, Stop>(vx));
    assert(bind_arguments(params, args, Map::empty(), around, 0) == Ok::<Frame, Stop>(both));

    assert(eval_expr(operands[0], both, around) == Ok::<Val, Stop>(vx));
    assert(eval_expr(operands[1], both, around) == Ok::<Val, Stop>(vy));
    assert(Seq::<Prim>::empty().push(Prim::Integer(x)).push(Prim::Integer(y)) =~= vals);
    assert(eval_operands(operands, both, around, 2, vals) == Ok::<Seq<Prim>, Stop>(vals));
    assert(eval_operands(operands, both, around, 1, Seq::empty().push(Prim::Integer(x))) == Ok::<
        Seq<Prim>,
        Stop,
    >(vals));
    assert(eval_operands(operands, both, around, 0, Seq::empty()) == Ok::<Seq<Prim>, Stop>(vals));
    reveal_with_fuel(first_misfit, 3);
    reveal_with_fuel(sum_from, 3);
    assert(first_misfit(vals, 1, false) == 2);
    assert(apply_operator(OperatorKind::Add, vals) == Ok::<Val, Stop>(total));
    assert(eval_expr(sum, both, around) == Ok::<Val, Stop>(total));
    assert(eval_stmt(body[0], both, around) == (Ok::<Val, Stop>(total), both));
    assert(eval_block(body, both, around, 1, total) == (Ok::<Val, Stop>(total), both));
    assert(eval_block(body, both, around, 0, null()) == (Ok::<Val, Stop>(total), both));
    assert(arity_fits(params.len(), args));
}

} // verus!
