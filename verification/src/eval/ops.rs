//! Operators applied to the values of their operands.
use vstd::prelude::*;
use vstd::string::*;
use crate::error::Error;
use crate::parser::ast::{exprs_view, Operator, OperatorKind, Prim, Primitive};
use crate::text::join;
use super::floats::{compared, computed, divided, divides, division_leads, float, fold_leads, folded};
use super::floats::{lemma_division_step, lemma_fold_end, lemma_fold_step, outcome, ruling, texts_view};
use super::floats::{applied, float_texts, zero_checked, FloatUnit};
use super::scope::Scope;
use super::semantics::{
    agrees, apply_operator, concat_from, divide_from, eval_expr, eval_operands, first_misfit, fits,
    lemma_integers_stay,
    fold_from, misfit, operator_name, operator_verb, prims_view, room, sum_from, too_few, unfit,
    zero_policy, Stop, Val,
};
use super::value::Value;
verus! {

impl OperatorKind {
    /// The operator's name.
    pub fn to_string(&self) -> (s: String)
        ensures
            s@ == operator_name(*self),
    {
        match self {
            OperatorKind::Equal => String::from_str("equal"),
            OperatorKind::Add => String::from_str("add"),
            OperatorKind::Subtract => String::from_str("subtract"),
            OperatorKind::Multiply => String::from_str("multiply"),
            OperatorKind::Divide => String::from_str("divide"),
            OperatorKind::Inverse => String::from_str("inverse"),
        }
    }

    /// What the operator's messages call what it does.
    fn verb(&self) -> (s: String)
        ensures
            s@ == operator_verb(*self),
    {
        match self {
            OperatorKind::Equal => String::from_str("compare"),
            OperatorKind::Add => String::from_str("add"),
            OperatorKind::Subtract => String::from_str("subtract"),
            OperatorKind::Multiply => String::from_str("multiply"),
            OperatorKind::Divide => String::from_str("divide"),
            OperatorKind::Inverse => String::from_str("inverse"),
        }
    }
}

/// The error for an operand of another type than the first.
fn mismatch(kind: OperatorKind, first: &Primitive, operand: &Primitive) -> (e: Error)
    ensures
        e@ == misfit(kind, first@, operand@),
{
    let mut msg = String::from_str("cannot ");
    msg.append(kind.verb().as_str());
    msg.append(" type ");
    msg.append(first.to_string().as_str());
    msg.append(" with type ");
    msg.append(operand.to_string().as_str());
    Error::from_string(msg)
}

/// The error for a first operand that the operator does not take.
fn unsuited(kind: OperatorKind, first: &Primitive) -> (e: Error)
    ensures
        e@ == unfit(kind, first@),
{
    let mut msg = String::from_str("cannot ");
    msg.append(kind.verb().as_str());
    msg.append(" type ");
    msg.append(first.to_string().as_str());
    Error::from_string(msg)
}

/// The error for an operator with fewer than two operands.
pub(crate) fn lacking(kind: OperatorKind) -> (e: Error)
    ensures
        e@ == too_few(kind),
{
    let mut msg = String::from_str("expected at least 2 arguments for ");
    msg.append(kind.to_string().as_str());
    msg.append(" operator");
    Error::from_string(msg)
}

/// Whether an operand goes with the first one.
fn suits(first: &Primitive, operand: &Primitive, nulls: bool) -> (b: bool)
    ensures
        b == fits(first@, operand@, nulls),
{
    match (first, operand) {
        (Primitive::Integer(_), Primitive::Integer(_)) => true,
        (Primitive::Float(_), Primitive::Float(_)) => true,
        (Primitive::String(_), Primitive::String(_)) => true,
        (Primitive::Boolean(_), Primitive::Boolean(_)) => true,
        (_, Primitive::Null) => nulls || matches!(first, Primitive::Null),
        _ => false,
    }
}

/// Whether two primitives are the same: of one type and, in it, the same
/// number, text or truth value.
fn alike(a: &Primitive, b: &Primitive) -> (same: bool)
    ensures
        same == (a@ == b@),
{
    match (a, b) {
        (Primitive::Integer(x), Primitive::Integer(y)) => *x == *y,
        (Primitive::Float(x), Primitive::Float(y)) => *x == *y,
        (Primitive::String(x), Primitive::String(y)) => *x == *y,
        (Primitive::Boolean(x), Primitive::Boolean(y)) => *x == *y,
        (Primitive::Null, Primitive::Null) => true,
        _ => false,
    }
}

/// The index of the first operand that does not go with the first one;
/// the number of operands where all do.
fn first_unsuited(values: &Vec<Primitive>, nulls: bool) -> (i: usize)
    requires
        values@.len() >= 1,
    ensures
        i == first_misfit(prims_view(values@), 1, nulls),
        1 <= i <= values@.len(),
        forall|j: int| 1 <= j < i ==> fits(values@[0]@, (#[trigger] values@[j])@, nulls),
        i < values@.len() ==> !fits(values@[0]@, values@[i as int]@, nulls),
{
    let mut i: usize = 1;
    while i < values.len()
        invariant
            1 <= i <= values@.len(),
            first_misfit(prims_view(values@), i as int, nulls) == first_misfit(
                prims_view(values@),
                1,
                nulls,
            ),
            forall|j: int| 1 <= j < i ==> fits(values@[0]@, (#[trigger] values@[j])@, nulls),
        decreases values@.len() - i,
    {
        if !suits(&values[0], &values[i], nulls) {
            return i;
        }
        i = i + 1;
    }
    i
}

/// What a division by zero fails with, where the language itself turns it
/// down; nothing where it does not.
pub fn zero_division(float: bool, seen_zero: bool, is_zero: bool, is_one: bool) -> (e: Option<Error>)
    ensures
        match zero_policy(float, seen_zero, is_zero, is_one) {
            Some(m) => e matches Some(x) && x@ == m,
            None => e is None,
        },
{
    if seen_zero || is_zero {
        if float {
            Some(Error::new("cannot divide 0.0 by 0.0"))
        } else {
            Some(Error::new("cannot divide 0 by 0"))
        }
    } else if is_one {
        Some(Error::new("infinity division"))
    } else {
        None
    }
}

/// The texts of the operands, which must all be floats as the first one
/// is: the error of the first one that is none.
fn float_operands(kind: OperatorKind, values: &Vec<Primitive>) -> (r: Result<Vec<String>, Error>)
    requires
        values@.len() >= 1,
        values@[0]@ is Float,
    ensures
        match r {
            Ok(texts) => first_misfit(prims_view(values@), 1, false) >= values@.len()
                && texts@.len() == values@.len() && texts_view(texts@) == float_texts(
                prims_view(values@),
            ),
            Err(e) => {
                let odd = first_misfit(prims_view(values@), 1, false);
                odd < values@.len() && e@ == misfit(
                    kind,
                    prims_view(values@)[0],
                    prims_view(values@)[odd],
                )
            },
        },
{
    let ghost vals = prims_view(values@);
    let mut texts: Vec<String> = Vec::new();
    let mut i: usize = 0;
    while i < values.len()
        invariant
            i <= values@.len(),
            values@.len() >= 1,
            vals == prims_view(values@),
            vals[0] is Float,
            texts@.len() == i,
            forall|j: int| 0 <= j < i ==> (#[trigger] texts@[j])@ == vals[j]->Float_0,
            i >= 1 ==> first_misfit(vals, i as int, false) == first_misfit(vals, 1, false),
        decreases values@.len() - i,
    {
        assert(vals[i as int] == values@[i as int]@);
        assert(vals[0] == values@[0]@);
        match &values[i] {
            Primitive::Float(v) => {
                texts.push(v.clone());
            },
            other => {
                return Err(mismatch(kind, &values[0], other));
            },
        }
        i = i + 1;
    }
    assert(texts_view(texts@) =~= float_texts(vals));
    Ok(texts)
}

/// `a + b + ..`, `a - b - ..` or `a * b * ..` on floats, from left to
/// right, each step taken by the float unit.
fn fold_floats<U: FloatUnit>(kind: OperatorKind, texts: Vec<String>, unit: &U) -> (r: Result<
    Value,
    Error,
>)
    requires
        texts@.len() >= 1,
    ensures
        folded(unit, kind, texts_view(texts@), 1, texts@[0]@, outcome(r)),
{
    let ghost all = texts_view(texts@);
    let mut acc: String = texts[0].clone();
    let mut i: usize = 1;
    while i < texts.len()
        invariant
            1 <= i <= texts@.len() && all == texts_view(texts@),
            fold_leads(unit, kind, all, i as int, acc@),
        decreases texts@.len() - i,
    {
        let answer = unit.arithmetic(kind, acc.as_str(), texts[i].as_str());
        proof { lemma_fold_step(unit, kind, all, i as int, acc@, answer); }
        match answer { Ok(next) => acc = next, Err(e) => return Err(e) }
        i = i + 1;
    }
    proof { lemma_fold_end(unit, kind, all, acc@); }
    Ok(Value::Primitive(Primitive::Float(acc)))
}

/// `a / b / ..` on floats, from left to right: the zero policy decides
/// whether a division by zero is turned down, the float unit says which
/// floats are zero or one and takes each division.
fn divide_floats<U: FloatUnit>(values: &Vec<Primitive>, first: &String, unit: &U) -> (r: Result<
    Value,
    Error,
>)
    ensures
        divides(unit, prims_view(values@), first@, outcome(r)),
{
    let ghost vals = prims_view(values@);
    let mut acc: String = first.clone();
    let first_is_zero = unit.equal(acc.as_str(), "0.0");
    assert(compared(unit, first@, "0.0"@, first_is_zero));
    let mut seen_zero = match first_is_zero {
        Ok(b) => b,
        Err(e) => {
            return Err(e);
        },
    };
    let mut i: usize = 1;
    while i < values.len()
        invariant
            1 <= i,
            vals == prims_view(values@),
            division_leads(unit, vals, first@, i as int, acc@, seen_zero),
        decreases values@.len() - i,
    {
        let ghost before = acc@;
        let ghost seen_before = seen_zero;
        assert(vals[i as int] == values@[i as int]@);
        assert(vals[0] == values@[0]@);
        match &values[i] {
            Primitive::Float(v) => {
                let by_zero = unit.equal(v.as_str(), "0.0");
                assert(compared(unit, v@, "0.0"@, by_zero));
                let ghost asked = by_zero;
                let by_zero = match by_zero {
                    Ok(b) => b,
                    Err(e) => {
                        proof {
                            let none = Err::<String, Error>(e);
                            let r = Err::<Val, Seq<char>>(e@);
                            lemma_division_step(
                                unit,
                                vals,
                                i as int,
                                before,
                                seen_before,
                                asked,
                                Ok(seen_before),
                                none,
                                r,
                            );
                        }
                        return Err(e);
                    },
                };
                let checked = check_zero(unit, &acc, seen_zero, by_zero);
                let ghost verdict = ruling(checked);
                match checked {
                    Ok(seen) => {
                        seen_zero = seen;
                    },
                    Err(e) => {
                        proof {
                            let none = Err::<String, Error>(e);
                            let r = Err::<Val, Seq<char>>(e@);
                            lemma_division_step(
                                unit,
                                vals,
                                i as int,
                                before,
                                seen_before,
                                asked,
                                verdict,
                                none,
                                r,
                            );
                        }
                        return Err(e);
                    },
                }
                let answer = unit.arithmetic(OperatorKind::Divide, acc.as_str(), v.as_str());
                assert(computed(unit, OperatorKind::Divide, before, v@, answer));
                match answer {
                    Ok(next) => {
                        assert forall|r: Result<Val, Seq<char>>| #[trigger]
                            divided(unit, vals, i + 1, next@, seen_zero, r) implies divides(
                            unit,
                            vals,
                            first@,
                            r,
                        ) by {
                            lemma_division_step(
                                unit,
                                vals,
                                i as int,
                                before,
                                seen_before,
                                asked,
                                verdict,
                                answer,
                                r,
                            );
                        }
                        acc = next;
                    },
                    Err(e) => {
                        proof {
                            let r = Err::<Val, Seq<char>>(e@);
                            lemma_division_step(
                                unit,
                                vals,
                                i as int,
                                before,
                                seen_before,
                                asked,
                                verdict,
                                answer,
                                r,
                            );
                        }
                        return Err(e);
                    },
                }
            },
            other => {
                let e = mismatch(OperatorKind::Divide, &values[0], other);
                assert(divided(unit, vals, i as int, before, seen_before, Err(e@)));
                return Err(e);
            },
        }
        i = i + 1;
    }
    assert(divided(unit, vals, i as int, acc@, seen_zero, Ok(float(acc@))));
    Ok(Value::Primitive(Primitive::Float(acc)))
}

/// The zero policy in front of a division of the running value `acc` by a
/// float: the flag that a zero has occurred, as it then stands, or the error
/// to fail with.
fn check_zero<U: FloatUnit>(unit: &U, acc: &String, seen_zero: bool, by_zero: bool) -> (r: Result<
    bool,
    Error,
>)
    ensures
        zero_checked(unit, acc@, seen_zero, by_zero, ruling(r)),
{
    if !by_zero {
        return Ok(seen_zero);
    }
    let is_zero = unit.equal(acc.as_str(), "0.0");
    assert(compared(unit, acc@, "0.0"@, is_zero));
    let is_zero = match is_zero {
        Ok(b) => b,
        Err(e) => {
            return Err(e);
        },
    };
    let is_one = unit.equal(acc.as_str(), "1.0");
    assert(compared(unit, acc@, "1.0"@, is_one));
    let is_one = match is_one {
        Ok(b) => b,
        Err(e) => {
            return Err(e);
        },
    };
    match zero_division(true, seen_zero, is_zero, is_one) {
        Some(e) => Err(e),
        None => Ok(true),
    }
}

/// An operator application: the operands are evaluated in order, all of
/// them, and the operator is applied to their values. `!` takes one
/// operand, every other operator two at least; no operand may be a
/// function.
pub fn eval_operator<U: FloatUnit>(op: &Operator, scope: &mut Scope, unit: &U) -> (r: Result<
    Value,
    Error,
>)
    ensures
        final(scope).top() == old(scope).top(),
        final(scope).rest() == old(scope).rest(),
        agrees(r, eval_expr(op@, old(scope).top(), old(scope).rest())),
        op.kind != OperatorKind::Inverse && op.args@.len() >= 2 ==> match eval_operands(
            exprs_view(op.args@),
            old(scope).top(),
            old(scope).rest(),
            0,
            Seq::empty(),
        ) {
            Ok(vals) => apply_operator(op.kind, vals) == Err::<Val, Stop>(Stop::Float) ==> applied(
                unit,
                op.kind,
                vals,
                outcome(r),
            ),
            Err(_) => true,
        },
    decreases room(old(scope).rest()), op, 0nat,
{
    let ghost top = scope.top();
    let ghost rest = scope.rest();
    let ghost args = exprs_view(op.args@);
    if let OperatorKind::Inverse = op.kind {
        if op.args.len() != 1 {
            return Err(Error::new("expected exactly one argument for inverse operator"));
        }
        assert(args[0] == op.args@[0]@);
        return match Value::eval_expr(&op.args[0], scope, unit) {
            Ok(Value::Primitive(Primitive::Boolean(b))) => Ok(
                Value::Primitive(Primitive::Boolean(!b)),
            ),
            Ok(v) => Err(Error::from_string(join("cannot inverse type ", v.to_string().as_str()))),
            Err(e) => Err(e),
        };
    }
    if op.args.len() < 2 {
        return Err(lacking(op.kind));
    }
    let ghost model = eval_operands(args, top, rest, 0, Seq::empty());
    let mut values: Vec<Primitive> = Vec::new();
    assert(prims_view(values@) =~= Seq::<Prim>::empty());
    let mut i: usize = 0;
    while i < op.args.len()
        invariant
            i <= op.args@.len(),
            op.args@.len() >= 2,
            op.kind != OperatorKind::Inverse,
            scope.top() == top,
            scope.rest() == rest,
            top == old(scope).top(),
            rest == old(scope).rest(),
            args == exprs_view(op.args@),
            model == eval_operands(args, top, rest, 0, Seq::empty()),
            model == Err::<Seq<Prim>, Stop>(Stop::Float) || eval_operands(
                args,
                top,
                rest,
                i as int,
                prims_view(values@),
            ) == model,
        decreases op.args@.len() - i,
    {
        assert(args[i as int] == op.args@[i as int]@);
        match Value::eval_expr(&op.args[i], scope, unit) {
            Ok(Value::Primitive(p)) => {
                assert(prims_view(values@.push(p)) =~= prims_view(values@).push(p@));
                values.push(p);
            },
            Ok(Value::Function(_)) => {
                return Err(Error::new("cannot compare type function"));
            },
            Err(e) => {
                return Err(e);
            },
        }
        i = i + 1;
    }
    match op.kind {
        OperatorKind::Equal => eval_operator_equal(values, unit),
        OperatorKind::Add => eval_operator_add(values, unit),
        OperatorKind::Subtract => eval_operator_subtract(values, unit),
        OperatorKind::Multiply => eval_operator_multiply(values, unit),
        _ => eval_operator_divide(values, unit),
    }
}

/// `== a b ..`: whether the last operand equals the first. Whether two
/// floats are equal is what the float unit answers.
pub fn eval_operator_equal<U: FloatUnit>(values: Vec<Primitive>, unit: &U) -> (r: Result<
    Value,
    Error,
>)
    ensures
        agrees(r, apply_operator(OperatorKind::Equal, prims_view(values@))),
        apply_operator(OperatorKind::Equal, prims_view(values@)) == Err::<Val, Stop>(Stop::Float)
            ==> applied(unit, OperatorKind::Equal, prims_view(values@), outcome(r)),
{
    if values.len() < 2 {
        return Err(lacking(OperatorKind::Equal));
    }
    let ghost vals = prims_view(values@);
    let last = values.len() - 1;
    assert(vals.last() == values@[last as int]@);
    assert(vals[0] == values@[0]@);
    if let Primitive::Null = &values[0] {
        return Ok(Value::Primitive(Primitive::Boolean(matches!(&values[last], Primitive::Null))));
    }
    let odd = first_unsuited(&values, true);
    if odd < values.len() {
        assert(vals[odd as int] == values@[odd as int]@);
        return Err(mismatch(OperatorKind::Equal, &values[0], &values[odd]));
    }
    if let Primitive::Null = &values[last] {
        return Ok(Value::Primitive(Primitive::Boolean(false)));
    }
    match (&values[0], &values[last]) {
        (Primitive::Float(a), Primitive::Float(b)) => {
            let answer = unit.equal(a.as_str(), b.as_str());
            assert(compared(unit, vals[0]->Float_0, vals.last()->Float_0, answer));
            match answer {
                Ok(same) => Ok(Value::Primitive(Primitive::Boolean(same))),
                Err(e) => Err(e),
            }
        },
        (a, b) => Ok(Value::Primitive(Primitive::Boolean(alike(a, b)))),
    }
}

/// `+ a b ..`: the sum of integers or the concatenation of strings. The
/// sum of floats is the unit's: the fold of its answers from left to right.
pub fn eval_operator_add<U: FloatUnit>(values: Vec<Primitive>, unit: &U) -> (r: Result<
    Value,
    Error,
>)
    ensures
        agrees(r, apply_operator(OperatorKind::Add, prims_view(values@))),
        apply_operator(OperatorKind::Add, prims_view(values@)) == Err::<Val, Stop>(Stop::Float)
            ==> applied(unit, OperatorKind::Add, prims_view(values@), outcome(r)),
{
    if values.len() < 2 {
        return Err(lacking(OperatorKind::Add));
    }
    let ghost vals = prims_view(values@);
    assert(vals[0] == values@[0]@);
    match &values[0] {
        Primitive::Integer(first) => {
            let mut numbers: Vec<i64> = Vec::new();
            let mut i: usize = 1;
            while i < values.len()
                invariant
                    1 <= i <= values@.len(),
                    values@.len() >= 2,
                    vals == prims_view(values@),
                    vals[0] == Prim::Integer(*first as int),
                    numbers@.len() == i - 1,
                    forall|j: int|
                        1 <= j < i ==> #[trigger] vals[j] == Prim::Integer(numbers@[j - 1] as int),
                    first_misfit(vals, i as int, false) == first_misfit(vals, 1, false),
                decreases values@.len() - i,
            {
                assert(vals[i as int] == values@[i as int]@);
                match &values[i] {
                    Primitive::Integer(v) => {
                        numbers.push(*v);
                    },
                    other => {
                        return Err(mismatch(OperatorKind::Add, &values[0], other));
                    },
                }
                i = i + 1;
            }
            let mut acc: i64 = *first;
            let mut k: usize = 0;
            while k < numbers.len()
                invariant
                    k <= numbers@.len(),
                    numbers@.len() == values@.len() - 1,
                    values@.len() >= 2,
                    vals == prims_view(values@),
                    vals[0] == Prim::Integer(*first as int),
                    first_misfit(vals, 1, false) >= vals.len(),
                    forall|j: int|
                        1 <= j < values@.len() ==> #[trigger] vals[j] == Prim::Integer(
                            numbers@[j - 1] as int,
                        ),
                    sum_from(vals, k + 1, acc as int) == sum_from(vals, 1, *first as int),
                decreases numbers@.len() - k,
            {
                assert(vals[k + 1] == Prim::Integer(numbers@[k as int] as int));
                match acc.checked_add(numbers[k]) {
                    Some(n) => {
                        acc = n;
                    },
                    None => {
                        return Err(Error::new("attempt to add with overflow"));
                    },
                }
                k = k + 1;
            }
            Ok(Value::Primitive(Primitive::Integer(acc)))
        },
        Primitive::String(first) => {
            let mut acc: String = first.clone();
            let mut i: usize = 1;
            while i < values.len()
                invariant
                    1 <= i <= values@.len(),
                    values@.len() >= 2,
                    vals == prims_view(values@),
                    vals[0] == Prim::String(first@),
                    first_misfit(vals, i as int, false) == first_misfit(vals, 1, false),
                    concat_from(vals, i as int, acc@) == concat_from(vals, 1, first@),
                decreases values@.len() - i,
            {
                assert(vals[i as int] == values@[i as int]@);
                match &values[i] {
                    Primitive::String(v) => {
                        acc.append(v.as_str());
                    },
                    other => {
                        return Err(mismatch(OperatorKind::Add, &values[0], other));
                    },
                }
                i = i + 1;
            }
            Ok(Value::Primitive(Primitive::String(acc)))
        },
        Primitive::Float(_) => match float_operands(OperatorKind::Add, &values) {
            Ok(texts) => {
                assert(texts_view(texts@)[0] == texts@[0]@);
                fold_floats(OperatorKind::Add, texts, unit)
            },
            Err(e) => Err(e),
        },
        other => Err(unsuited(OperatorKind::Add, other)),
    }
}

/// `- a b ..` and `* a b ..` on integers, from left to right.
fn fold_integers(kind: OperatorKind, values: &Vec<Primitive>, first: i64) -> (r: Result<
    Value,
    Error,
>)
    requires
        kind == OperatorKind::Subtract || kind == OperatorKind::Multiply,
        values@.len() >= 1,
    ensures
        agrees(r, fold_from(kind, prims_view(values@), 1, first as int)),
{
    let ghost vals = prims_view(values@);
    let mut acc: i64 = first;
    let mut i: usize = 1;
    while i < values.len()
        invariant
            1 <= i <= values@.len(),
            vals == prims_view(values@),
            kind == OperatorKind::Subtract || kind == OperatorKind::Multiply,
            fold_from(kind, vals, i as int, acc as int) == fold_from(kind, vals, 1, first as int),
        decreases values@.len() - i,
    {
        assert(vals[i as int] == values@[i as int]@);
        assert(vals[0] == values@[0]@);
        match &values[i] {
            Primitive::Integer(v) => {
                let next = match kind {
                    OperatorKind::Subtract => acc.checked_sub(*v),
                    _ => acc.checked_mul(*v),
                };
                match next {
                    Some(n) => {
                        acc = n;
                    },
                    None => {
                        return Err(
                            match kind {
                                OperatorKind::Subtract => Error::new(
                                    "attempt to subtract with overflow",
                                ),
                                _ => Error::new("attempt to multiply with overflow"),
                            },
                        );
                    },
                }
            },
            other => {
                return Err(mismatch(kind, &values[0], other));
            },
        }
        i = i + 1;
    }
    Ok(Value::Primitive(Primitive::Integer(acc)))
}

/// `- a b ..` or `* a b ..`.
fn fold<U: FloatUnit>(kind: OperatorKind, values: Vec<Primitive>, unit: &U) -> (r: Result<
    Value,
    Error,
>)
    requires
        kind == OperatorKind::Subtract || kind == OperatorKind::Multiply,
    ensures
        agrees(r, apply_operator(kind, prims_view(values@))),
        apply_operator(kind, prims_view(values@)) == Err::<Val, Stop>(Stop::Float) ==> applied(
            unit,
            kind,
            prims_view(values@),
            outcome(r),
        ),
{
    if values.len() < 2 {
        return Err(lacking(kind));
    }
    let ghost vals = prims_view(values@);
    assert(vals[0] == values@[0]@);
    match &values[0] {
        Primitive::Integer(first) => {
            proof {
                lemma_integers_stay(kind, vals, 1, *first as int, false);
            }
            fold_integers(kind, &values, *first)
        },
        Primitive::Float(_) => match float_operands(kind, &values) {
            Ok(texts) => {
                assert(texts_view(texts@)[0] == texts@[0]@);
                fold_floats(kind, texts, unit)
            },
            Err(e) => Err(e),
        },
        other => Err(unsuited(kind, other)),
    }
}

/// `- a b ..`: the first operand less all the others. On floats, the
/// fold of the unit's answers from left to right.
pub fn eval_operator_subtract<U: FloatUnit>(values: Vec<Primitive>, unit: &U) -> (r: Result<
    Value,
    Error,
>)
    ensures
        agrees(r, apply_operator(OperatorKind::Subtract, prims_view(values@))),
        apply_operator(OperatorKind::Subtract, prims_view(values@)) == Err::<Val, Stop>(Stop::Float)
            ==> applied(unit, OperatorKind::Subtract, prims_view(values@), outcome(r)),
{
    fold(OperatorKind::Subtract, values, unit)
}

/// `* a b ..`: the product of the operands. On floats, the fold of the
/// unit's answers from left to right.
pub fn eval_operator_multiply<U: FloatUnit>(values: Vec<Primitive>, unit: &U) -> (r: Result<
    Value,
    Error,
>)
    ensures
        agrees(r, apply_operator(OperatorKind::Multiply, prims_view(values@))),
        apply_operator(OperatorKind::Multiply, prims_view(values@)) == Err::<Val, Stop>(Stop::Float)
            ==> applied(unit, OperatorKind::Multiply, prims_view(values@), outcome(r)),
{
    fold(OperatorKind::Multiply, values, unit)
}

/// `/ a b ..`: the first operand divided by each of the others in turn. On
/// floats, the unit says which are zero or one and takes each division, and
/// the zero policy decides which divisions by zero are turned down.
pub fn eval_operator_divide<U: FloatUnit>(values: Vec<Primitive>, unit: &U) -> (r: Result<
    Value,
    Error,
>)
    ensures
        agrees(r, apply_operator(OperatorKind::Divide, prims_view(values@))),
        apply_operator(OperatorKind::Divide, prims_view(values@)) == Err::<Val, Stop>(Stop::Float)
            ==> applied(unit, OperatorKind::Divide, prims_view(values@), outcome(r)),
{
    if values.len() < 2 {
        return Err(lacking(OperatorKind::Divide));
    }
    let ghost vals = prims_view(values@);
    assert(vals[0] == values@[0]@);
    assert(vals[1] == values@[1]@);
    match &values[0] {
        Primitive::Integer(first) => {
            let mut acc: i64 = *first;
            let seen_zero = acc == 0;
            let mut i: usize = 1;
            while i < values.len()
                invariant
                    1 <= i <= values@.len(),
                    values@.len() >= 2,
                    vals == prims_view(values@),
                    vals[0] == Prim::Integer(*first as int),
                    divide_from(vals, i as int, acc as int, seen_zero) == divide_from(
                        vals,
                        1,
                        *first as int,
                        *first == 0,
                    ),
                decreases values@.len() - i,
            {
                assert(vals[i as int] == values@[i as int]@);
                assert(vals[0] == values@[0]@);
                match &values[i] {
                    Primitive::Integer(v) => {
                        if *v == 0 {
                            return Err(
                                match zero_division(false, seen_zero, acc == 0, acc == 1) {
                                    Some(e) => e,
                                    None => Error::new("attempt to divide by zero"),
                                },
                            );
                        }
                        match acc.checked_div(*v) {
                            Some(n) => {
                                acc = n;
                            },
                            None => {
                                return Err(Error::new("attempt to divide with overflow"));
                            },
                        }
                    },
                    other => {
                        return Err(mismatch(OperatorKind::Divide, &values[0], other));
                    },
                }
                i = i + 1;
            }
            Ok(Value::Primitive(Primitive::Integer(acc)))
        },
        Primitive::Float(first) => {
            if let Primitive::Float(_) = &values[1] {
                divide_floats(&values, first, unit)
            } else {
                Err(mismatch(OperatorKind::Divide, &values[0], &values[1]))
            }
        },
        other => Err(unsuited(OperatorKind::Divide, other)),
    }
}

} // verus!
