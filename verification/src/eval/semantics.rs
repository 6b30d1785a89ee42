//! What evaluation computes, as functions on mathematical trees.
//!
//! A scope is seen as its innermost frame, a map from names to values, and
//! the frames around it, innermost first. Expressions read the frames;
//! only statements change one, and only the innermost.
//!
//! The library holds a float as text and does no arithmetic on floats: each
//! sum, difference, product, quotient and comparison of two floats is the
//! work of the caller's [`super::FloatUnit`]. Where the result of an
//! evaluation depends on one, these functions say [`Stop::Float`]. The
//! contracts of the operators then say which results the unit's answers
//! leave ([`super::floats::applied`]); those of the evaluator around them
//! promise no particular result.

use vstd::prelude::*;
use crate::parser::ast::{Expr, OperatorKind, Prim, Stmt};
use crate::text::natural_text;

verus! {

/// How many scopes may stand around the scope of a call: a call nested
/// deeper than this fails with an error.
///
/// The limit is the library's own; the language has none. The evaluator
/// walks the tree on the machine's stack, once more for every nested call,
/// so a chain of calls without end would exhaust the stack and bring the
/// program down. The limit turns that into an error that the caller can
/// report, and it is the measure by which the evaluator is seen to end. It is
/// set so that the deepest chain fits a thread's stack of two megabytes with
/// room to spare.
pub const CALL_DEPTH: usize = 512;

/// The mathematical form of a value.
pub enum Val {
    Primitive(Prim),
    Function(Seq<Seq<char>>, Seq<Stmt>),
}

/// The bindings of one scope.
pub type Frame = Map<Seq<char>, Val>;

/// Why an evaluation gives no value.
pub enum Stop {
    /// It failed, with this message.
    Error(Seq<char>),
    /// It reached arithmetic on floats or a comparison of floats, whose
    /// outcome the float unit decides.
    Float,
}

/// The null value.
pub open spec fn null() -> Val {
    Val::Primitive(Prim::Null)
}

/// A boolean value.
pub open spec fn boolean(b: bool) -> Val {
    Val::Primitive(Prim::Boolean(b))
}

/// A failure with the given message.
pub open spec fn fail<T>(msg: Seq<char>) -> Result<T, Stop> {
    Err(Stop::Error(msg))
}

/// The name of a primitive's type.
pub open spec fn kind_name(p: Prim) -> Seq<char> {
    match p {
        Prim::Integer(_) => "integer"@,
        Prim::Float(_) => "float"@,
        Prim::String(_) => "string"@,
        Prim::Boolean(_) => "boolean"@,
        Prim::Null => "null"@,
    }
}

/// The name of a value's type.
pub open spec fn value_kind_name(v: Val) -> Seq<char> {
    match v {
        Val::Primitive(p) => kind_name(p),
        Val::Function(_, _) => "function"@,
    }
}

/// How a value is shown.
pub open spec fn value_text(v: Val) -> Seq<char> {
    match v {
        Val::Primitive(Prim::Integer(n)) => crate::text::decimal_text(n),
        Val::Primitive(Prim::Float(t)) => t,
        Val::Primitive(Prim::String(t)) => t,
        Val::Primitive(Prim::Boolean(b)) => if b {
            "true"@
        } else {
            "false"@
        },
        Val::Primitive(Prim::Null) => "null"@,
        Val::Function(_, _) => "function"@,
    }
}

/// The name of an operator.
pub open spec fn operator_name(k: OperatorKind) -> Seq<char> {
    match k {
        OperatorKind::Equal => "equal"@,
        OperatorKind::Add => "add"@,
        OperatorKind::Subtract => "subtract"@,
        OperatorKind::Multiply => "multiply"@,
        OperatorKind::Divide => "divide"@,
        OperatorKind::Inverse => "inverse"@,
    }
}

/// What an operator's messages call what it does: every operator but
/// `inverse` has a verb.
pub open spec fn operator_verb(k: OperatorKind) -> Seq<char> {
    match k {
        OperatorKind::Equal => "compare"@,
        OperatorKind::Add => "add"@,
        OperatorKind::Subtract => "subtract"@,
        OperatorKind::Multiply => "multiply"@,
        OperatorKind::Divide => "divide"@,
        OperatorKind::Inverse => "inverse"@,
    }
}

/// The value of a name in the frames around a scope, innermost first.
pub open spec fn lookup_outer(outer: Seq<Frame>, name: Seq<char>) -> Option<Val>
    decreases outer.len(),
{
    if outer.len() == 0 {
        None
    } else if outer[0].contains_key(name) {
        Some(outer[0][name])
    } else {
        lookup_outer(outer.skip(1), name)
    }
}

/// The value of a name in a scope: that of the innermost frame that binds
/// it.
pub open spec fn lookup(frame: Frame, outer: Seq<Frame>, name: Seq<char>) -> Option<Val> {
    if frame.contains_key(name) {
        Some(frame[name])
    } else {
        lookup_outer(outer, name)
    }
}

/// Whether a condition holds: a boolean as it is, null never, and every
/// other primitive always.
pub open spec fn truthy(p: Prim) -> bool {
    match p {
        Prim::Boolean(b) => b,
        Prim::Null => false,
        _ => true,
    }
}

/// Whether a value counts as true for `&&` and `||`: everything but false
/// and null does, a function too.
pub open spec fn holds(v: Val) -> bool {
    !(v == boolean(false) || v == null())
}

/// Two primitives of the same type.
pub open spec fn same_kind(a: Prim, b: Prim) -> bool {
    ||| a is Integer && b is Integer
    ||| a is Float && b is Float
    ||| a is String && b is String
    ||| a is Boolean && b is Boolean
    ||| a is Null && b is Null
}

/// Whether an operand goes with the first one: it is of the same type, or
/// it is null where `nulls` lets null pass.
pub open spec fn fits(first: Prim, operand: Prim, nulls: bool) -> bool {
    same_kind(first, operand) || (nulls && operand is Null)
}

/// The index of the first operand, from `from` on, that does not go with
/// the first one; the number of operands where all do.
pub open spec fn first_misfit(vals: Seq<Prim>, from: int, nulls: bool) -> int
    decreases vals.len() - from,
{
    if from >= vals.len() {
        vals.len() as int
    } else if 0 <= from && !fits(vals[0], vals[from], nulls) {
        from
    } else {
        first_misfit(vals, from + 1, nulls)
    }
}

/// The message for an operand of another type than the first.
pub open spec fn misfit(k: OperatorKind, first: Prim, operand: Prim) -> Seq<char> {
    "cannot "@ + operator_verb(k) + " type "@ + kind_name(first) + " with type "@ + kind_name(
        operand,
    )
}

/// The message for a first operand that the operator does not take.
pub open spec fn unfit(k: OperatorKind, first: Prim) -> Seq<char> {
    "cannot "@ + operator_verb(k) + " type "@ + kind_name(first)
}

/// Whether a 64-bit signed integer can hold a number.
pub open spec fn in_range(n: int) -> bool {
    i64::MIN <= n <= i64::MAX
}

/// The quotient of two integers rounded towards zero; the divisor is not
/// zero.
pub open spec fn quotient(a: int, b: int) -> int {
    if a >= 0 && b > 0 {
        a / b
    } else if a < 0 && b > 0 {
        -((-a) / b)
    } else if a >= 0 && b < 0 {
        -(a / (-b))
    } else {
        (-a) / (-b)
    }
}

/// `== a b ..`: whether the last operand equals the first. Null equals
/// null and nothing else; an operand of another type than the first, null
/// aside, is an error, the first such one's. Two floats are the float
/// unit's to compare.
pub open spec fn apply_equal(vals: Seq<Prim>) -> Result<Val, Stop> {
    let first = vals[0];
    let last = vals.last();
    let odd = first_misfit(vals, 1, true);
    if first is Null {
        Ok(boolean(last is Null))
    } else if odd < vals.len() {
        fail(misfit(OperatorKind::Equal, first, vals[odd]))
    } else if last is Null {
        Ok(boolean(false))
    } else if first is Float {
        Err(Stop::Float)
    } else {
        Ok(boolean(first == last))
    }
}

/// The sum of the integers from index `i` on and of `acc`, or the error of
/// the first partial sum that overflows.
pub open spec fn sum_from(vals: Seq<Prim>, i: int, acc: int) -> Result<Val, Stop>
    decreases vals.len() - i,
{
    if i >= vals.len() || i < 0 {
        Ok(Val::Primitive(Prim::Integer(acc)))
    } else if in_range(acc + vals[i]->Integer_0) {
        sum_from(vals, i + 1, acc + vals[i]->Integer_0)
    } else {
        fail("attempt to add with overflow"@)
    }
}

/// The texts of the strings from index `i` on, behind `acc`.
pub open spec fn concat_from(vals: Seq<Prim>, i: int, acc: Seq<char>) -> Seq<char>
    decreases vals.len() - i,
{
    if i >= vals.len() || i < 0 {
        acc
    } else {
        concat_from(vals, i + 1, acc + vals[i]->String_0)
    }
}

/// `+ a b ..`: integers sum, strings concatenate in order. An operand of
/// another type than the first is an error, the first such one's, and comes
/// before any overflow. The sum of floats is the float unit's.
pub open spec fn apply_add(vals: Seq<Prim>) -> Result<Val, Stop> {
    let first = vals[0];
    let odd = first_misfit(vals, 1, false);
    match first {
        Prim::Integer(n) => if odd < vals.len() {
            fail(misfit(OperatorKind::Add, first, vals[odd]))
        } else {
            sum_from(vals, 1, n)
        },
        Prim::Float(_) => if odd < vals.len() {
            fail(misfit(OperatorKind::Add, first, vals[odd]))
        } else {
            Err(Stop::Float)
        },
        Prim::String(s) => if odd < vals.len() {
            fail(misfit(OperatorKind::Add, first, vals[odd]))
        } else {
            Ok(Val::Primitive(Prim::String(concat_from(vals, 1, s))))
        },
        _ => fail(unfit(OperatorKind::Add, first)),
    }
}

/// `acc - b - ..` or `acc * b * ..` over the operands from index `i` on,
/// from left to right. The first operand that is no integer, or the first
/// result that overflows, ends it with an error.
pub open spec fn fold_from(k: OperatorKind, vals: Seq<Prim>, i: int, acc: int) -> Result<
    Val,
    Stop,
>
    decreases vals.len() - i,
{
    if i >= vals.len() || i < 0 {
        Ok(Val::Primitive(Prim::Integer(acc)))
    } else {
        match vals[i] {
            Prim::Integer(v) => {
                let next = if k == OperatorKind::Subtract {
                    acc - v
                } else {
                    acc * v
                };
                if in_range(next) {
                    fold_from(k, vals, i + 1, next)
                } else if k == OperatorKind::Subtract {
                    fail("attempt to subtract with overflow"@)
                } else {
                    fail("attempt to multiply with overflow"@)
                }
            },
            other => fail(misfit(k, vals[0], other)),
        }
    }
}

/// `- a b ..` and `* a b ..`: a fold from the left over integers. With a
/// float first, an operand that is no float is an error, the first such
/// one's, and the fold over floats is the float unit's.
pub open spec fn apply_fold(k: OperatorKind, vals: Seq<Prim>) -> Result<Val, Stop> {
    let first = vals[0];
    let odd = first_misfit(vals, 1, false);
    match first {
        Prim::Integer(n) => fold_from(k, vals, 1, n),
        Prim::Float(_) => if odd < vals.len() {
            fail(misfit(k, first, vals[odd]))
        } else {
            Err(Stop::Float)
        },
        _ => fail(unfit(k, first)),
    }
}

/// What a division by zero fails with, where it is one of those that the
/// language itself turns down: division of zero by zero where a zero has
/// occurred before in the fold or the running value is zero, and division
/// to infinity where the running value is one. `float` says which of the
/// two number types is being divided.
pub open spec fn zero_policy(float: bool, seen_zero: bool, is_zero: bool, is_one: bool) -> Option<
    Seq<char>,
> {
    if seen_zero || is_zero {
        Some(
            if float {
                "cannot divide 0.0 by 0.0"@
            } else {
                "cannot divide 0 by 0"@
            },
        )
    } else if is_one {
        Some("infinity division"@)
    } else {
        None
    }
}

/// `acc / b / ..` over the operands from index `i` on, from left to right,
/// each quotient rounded towards zero. `seen_zero` says that a zero has
/// occurred before.
///
/// A zero divisor is an error: that of [`zero_policy`], and the machine's
/// own refusal where the policy has none.
pub open spec fn divide_from(vals: Seq<Prim>, i: int, acc: int, seen_zero: bool) -> Result<
    Val,
    Stop,
>
    decreases vals.len() - i,
{
    if i >= vals.len() || i < 0 {
        Ok(Val::Primitive(Prim::Integer(acc)))
    } else {
        match vals[i] {
            Prim::Integer(v) => {
                if v == 0 {
                    match zero_policy(false, seen_zero, acc == 0, acc == 1) {
                        Some(m) => fail(m),
                        None => fail("attempt to divide by zero"@),
                    }
                } else if !in_range(quotient(acc, v)) {
                    fail("attempt to divide with overflow"@)
                } else {
                    divide_from(vals, i + 1, quotient(acc, v), seen_zero)
                }
            },
            other => fail(misfit(OperatorKind::Divide, vals[0], other)),
        }
    }
}

/// `/ a b ..`: a fold from the left over integers. With a float first, a
/// second operand that is no float is an error; everything else depends on
/// what the floats are worth, which the float unit says.
pub open spec fn apply_divide(vals: Seq<Prim>) -> Result<Val, Stop> {
    let first = vals[0];
    match first {
        Prim::Integer(n) => divide_from(vals, 1, n, n == 0),
        Prim::Float(_) => if !(vals[1] is Float) {
            fail(misfit(OperatorKind::Divide, first, vals[1]))
        } else {
            Err(Stop::Float)
        },
        _ => fail(unfit(OperatorKind::Divide, first)),
    }
}

/// Arithmetic on integers never depends on the float unit.
pub proof fn lemma_integers_stay(k: OperatorKind, vals: Seq<Prim>, i: int, acc: int, seen: bool)
    ensures
        sum_from(vals, i, acc) != Err::<Val, Stop>(Stop::Float),
        fold_from(k, vals, i, acc) != Err::<Val, Stop>(Stop::Float),
        divide_from(vals, i, acc, seen) != Err::<Val, Stop>(Stop::Float),
    decreases vals.len() - i,
{
    if 0 <= i < vals.len() {
        let v = vals[i]->Integer_0;
        lemma_integers_stay(k, vals, i + 1, acc + v, seen);
        lemma_integers_stay(k, vals, i + 1, acc - v, seen);
        lemma_integers_stay(k, vals, i + 1, acc * v, seen);
        lemma_integers_stay(k, vals, i + 1, quotient(acc, v), seen);
    }
}

/// The message for an operator with fewer than two operands.
pub open spec fn too_few(k: OperatorKind) -> Seq<char> {
    "expected at least 2 arguments for "@ + operator_name(k) + " operator"@
}

/// The message for `!` with another number of operands than one.
pub open spec fn not_one() -> Seq<char> {
    "expected exactly one argument for inverse operator"@
}

/// `! a`: the complement of a boolean, and an error for anything else.
pub open spec fn apply_inverse(v: Val) -> Result<Val, Stop> {
    match v {
        Val::Primitive(Prim::Boolean(b)) => Ok(boolean(!b)),
        _ => fail("cannot inverse type "@ + value_kind_name(v)),
    }
}

/// An operator other than `!` applied to its operands' values, of which
/// there must be two at least; the first one's type decides what is done.
pub open spec fn apply_operator(k: OperatorKind, vals: Seq<Prim>) -> Result<Val, Stop> {
    if k == OperatorKind::Inverse {
        fail(not_one())
    } else if vals.len() < 2 {
        fail(too_few(k))
    } else {
        match k {
            OperatorKind::Equal => apply_equal(vals),
            OperatorKind::Add => apply_add(vals),
            OperatorKind::Subtract => apply_fold(k, vals),
            OperatorKind::Multiply => apply_fold(k, vals),
            _ => apply_divide(vals),
        }
    }
}

/// The message for a call with the wrong number of arguments.
pub open spec fn wrong_arity(name: Seq<char>, params: nat) -> Seq<char> {
    "expected "@ + natural_text(params) + " arguments to function "@ + name
}

/// The message for a function without parameters that is called with one
/// argument other than `()`.
pub open spec fn wants_no_argument(name: Seq<char>) -> Seq<char> {
    "function "@ + name + " can only be called with ()"@
}

/// The message for a call nested deeper than [`CALL_DEPTH`].
pub open spec fn too_deep() -> Seq<char> {
    "maximum call depth exceeded"@
}

/// Whether a function with `params` parameters takes these arguments: as
/// many as it has parameters, or the single argument `()` where it has
/// none.
pub open spec fn arity_fits(params: nat, args: Seq<Expr>) -> bool {
    args.len() == params || (params == 0 && args.len() == 1 && args[0] == Expr::Primitive(
        Prim::Null,
    ))
}

/// How much room for nested calls is left around a scope.
pub open spec fn room(outer: Seq<Frame>) -> nat {
    if outer.len() < CALL_DEPTH {
        (CALL_DEPTH - outer.len()) as nat
    } else {
        0
    }
}

/// The views of a run of primitives.
pub open spec fn prims_view(ps: Seq<crate::parser::ast::Primitive>) -> Seq<Prim> {
    Seq::new(ps.len(), |i: int| ps[i]@)
}

/// The views of a run of values.
pub open spec fn values_view(vs: Seq<crate::eval::value::Value>) -> Seq<Val> {
    Seq::new(vs.len(), |i: int| vs[i]@)
}

/// An executable result is the one that the model gives. Where the model
/// leaves the outcome to the float unit, every result is.
pub open spec fn agrees(
    r: Result<crate::eval::value::Value, crate::error::Error>,
    by_model: Result<Val, Stop>,
) -> bool {
    match by_model {
        Ok(v) => r matches Ok(x) && x@ == v,
        Err(Stop::Error(m)) => r matches Err(e) && e@ == m,
        Err(Stop::Float) => true,
    }
}

/// A statement, or a run of statements, has done to a scope what the
/// model says: the scopes around it are untouched, the result is the
/// model's, and so is the scope's own frame. Where the model leaves the
/// outcome to the float unit, the frame is what the unit's answers made it.
pub open spec fn ran(
    before: crate::eval::scope::Scope,
    after: crate::eval::scope::Scope,
    r: Result<crate::eval::value::Value, crate::error::Error>,
    by_model: (Result<Val, Stop>, Frame),
) -> bool {
    &&& after.rest() == before.rest()
    &&& agrees(r, by_model.0)
    &&& by_model.0 != Err::<Val, Stop>(Stop::Float) ==> after.top() == by_model.1
}

/// The value of an expression in a scope.
pub open spec fn eval_expr(e: Expr, frame: Frame, outer: Seq<Frame>) -> Result<Val, Stop>
    decreases room(outer), e, 0nat,
{
    match e {
        Expr::Primitive(p) => Ok(Val::Primitive(p)),
        Expr::Identifier(name) => match lookup(frame, outer, name) {
            Some(v) => Ok(v),
            None => fail("undefined variable "@ + name),
        },
        Expr::Operator(k, args) => {
            if k == OperatorKind::Inverse {
                if args.len() != 1 {
                    fail(not_one())
                } else {
                    match eval_expr(args[0], frame, outer) {
                        Ok(v) => apply_inverse(v),
                        Err(s) => Err(s),
                    }
                }
            } else if args.len() < 2 {
                fail(too_few(k))
            } else {
                match eval_operands(args, frame, outer, 0, Seq::empty()) {
                    Ok(vals) => apply_operator(k, vals),
                    Err(s) => Err(s),
                }
            }
        },
        Expr::Function(params, body) => Ok(Val::Function(params, body)),
        Expr::Call(name, args) => match lookup(frame, outer, name) {
            None => fail("undefined function variable "@ + name),
            Some(Val::Primitive(p)) => fail("cannot call type "@ + kind_name(p) + " as a function"@),
            Some(Val::Function(params, body)) => {
                if !arity_fits(params.len(), args) {
                    if args.len() == 1 && params.len() == 0 {
                        fail(wants_no_argument(name))
                    } else {
                        fail(wrong_arity(name, params.len()))
                    }
                } else if outer.len() >= CALL_DEPTH {
                    fail(too_deep())
                } else {
                    let around = seq![frame] + outer;
                    match bind_arguments(params, args, Map::empty(), around, 0) {
                        Ok(inner) => eval_block(body, inner, around, 0, null()).0,
                        Err(s) => Err(s),
                    }
                }
            },
        },
        Expr::And(args) => match eval_all(args, frame, outer, 0, Seq::empty()) {
            Ok(vals) => Ok(boolean(forall|i: int| 0 <= i < vals.len() ==> holds(#[trigger] vals[i]))),
            Err(s) => Err(s),
        },
        Expr::Or(args) => match eval_all(args, frame, outer, 0, Seq::empty()) {
            Ok(vals) => Ok(boolean(exists|i: int| 0 <= i < vals.len() && holds(#[trigger] vals[i]))),
            Err(s) => Err(s),
        },
    }
}

/// The values of an operator's operands from index `i` on, in order,
/// behind `acc`. The first failure ends it; so does the first operand
/// whose value is a function.
pub open spec fn eval_operands(
    args: Seq<Expr>,
    frame: Frame,
    outer: Seq<Frame>,
    i: int,
    acc: Seq<Prim>,
) -> Result<Seq<Prim>, Stop>
    decreases room(outer), args, args.len() - i,
{
    if i >= args.len() || i < 0 {
        Ok(acc)
    } else {
        match eval_expr(args[i], frame, outer) {
            Ok(Val::Primitive(p)) => eval_operands(args, frame, outer, i + 1, acc.push(p)),
            Ok(Val::Function(_, _)) => fail("cannot compare type function"@),
            Err(s) => Err(s),
        }
    }
}

/// The values of the operands of `&&` or `||` from index `i` on, in
/// order, behind `acc`: all of them are evaluated, and the first failure
/// ends it.
pub open spec fn eval_all(
    args: Seq<Expr>,
    frame: Frame,
    outer: Seq<Frame>,
    i: int,
    acc: Seq<Val>,
) -> Result<Seq<Val>, Stop>
    decreases room(outer), args, args.len() - i,
{
    if i >= args.len() || i < 0 {
        Ok(acc)
    } else {
        match eval_expr(args[i], frame, outer) {
            Ok(v) => eval_all(args, frame, outer, i + 1, acc.push(v)),
            Err(s) => Err(s),
        }
    }
}

/// The frame of a call once the arguments from index `i` on are bound:
/// each is evaluated in the call's own scope, in which those before it are
/// bound already, and `around` holds the caller's frames.
pub open spec fn bind_arguments(
    params: Seq<Seq<char>>,
    args: Seq<Expr>,
    inner: Frame,
    around: Seq<Frame>,
    i: int,
) -> Result<Frame, Stop>
    decreases room(around), args, args.len() - i,
{
    if i >= args.len() || i >= params.len() || i < 0 {
        Ok(inner)
    } else {
        match eval_expr(args[i], inner, around) {
            Ok(v) => bind_arguments(params, args, inner.insert(params[i], v), around, i + 1),
            Err(s) => Err(s),
        }
    }
}

/// What a statement gives, and the innermost frame behind it.
pub open spec fn eval_stmt(s: Stmt, frame: Frame, outer: Seq<Frame>) -> (Result<Val, Stop>, Frame)
    decreases room(outer), s, 0nat,
{
    match s {
        Stmt::Assign(name, e) => match eval_expr(e, frame, outer) {
            Ok(v) => (Ok(v), frame.insert(name, v)),
            Err(s) => (Err(s), frame),
        },
        Stmt::If(c, consequence, alternative) => match eval_expr(c, frame, outer) {
            Ok(Val::Primitive(p)) => {
                let r = if truthy(p) {
                    eval_block(consequence, frame, outer, 0, null())
                } else {
                    match alternative {
                        Some(alt) => eval_block(alt, frame, outer, 0, null()),
                        None => (Ok(null()), frame),
                    }
                };
                match r.0 {
                    Ok(_) => (Ok(null()), r.1),
                    Err(s) => (Err(s), r.1),
                }
            },
            Ok(Val::Function(_, _)) => (fail("cannot use type function as a condition"@), frame),
            Err(s) => (Err(s), frame),
        },
        Stmt::Expression(e) => (eval_expr(e, frame, outer), frame),
    }
}

/// What the statements from index `i` on give, one after the other in the
/// same scope, and the innermost frame behind them: the value of the last
/// one, or `last` where none is left. The first failure ends it.
pub open spec fn eval_block(
    ss: Seq<Stmt>,
    frame: Frame,
    outer: Seq<Frame>,
    i: int,
    last: Val,
) -> (Result<Val, Stop>, Frame)
    decreases room(outer), ss, ss.len() - i,
{
    if i >= ss.len() || i < 0 {
        (Ok(last), frame)
    } else {
        let r = eval_stmt(ss[i], frame, outer);
        match r.0 {
            Ok(v) => eval_block(ss, r.1, outer, i + 1, v),
            Err(s) => (Err(s), r.1),
        }
    }
}

/// What a program gives in a scope, and the scope's innermost frame
/// behind it.
pub open spec fn eval_program(program: Seq<Stmt>, frame: Frame, outer: Seq<Frame>) -> (
    Result<Val, Stop>,
    Frame,
) {
    eval_block(program, frame, outer, 0, null())
}

} // verus!
