//! Arithmetic on floats, which the library leaves to its caller.
//!
//! What the unit answers is not known beforehand, so what the library makes
//! of floats is stated as a relation: [`folded`] and [`divides`] say which
//! results a fold or a division can have, given what the unit has answered
//! to each request.

use vstd::prelude::*;
use vstd::string::*;
use crate::error::Error;
use crate::parser::ast::{OperatorKind, Prim};
use super::semantics::{boolean, misfit, zero_policy, Val};
use super::value::Value;

verus! {

/// What computes with floats for the evaluator.
///
/// The library holds a float as its decimal text. It decides everything
/// about an operator application that can be decided without knowing what
/// the floats are worth, and runs the folds and the zero policy of
/// division itself; for the arithmetic of one step and for the comparison
/// of two floats it asks this unit, and takes the answer as it comes. An
/// error that the unit answers with ends the evaluation.
pub trait FloatUnit {
    /// `left + right`, `left - right`, `left * right` or `left / right`,
    /// as `kind` says, as text.
    fn arithmetic(&self, kind: OperatorKind, left: &str, right: &str) -> Result<String, Error>;

    /// Whether two floats are equal.
    fn equal(&self, left: &str, right: &str) -> Result<bool, Error>;
}

/// The unit of a caller that has no floats: it turns every request down.
#[derive(Clone, Copy, Debug)]
pub struct NoFloats;

impl FloatUnit for NoFloats {
    fn arithmetic(&self, kind: OperatorKind, left: &str, right: &str) -> (r: Result<String, Error>)
        ensures
            r matches Err(e) && e@ == "float arithmetic is not available"@,
    {
        Err(Error::new("float arithmetic is not available"))
    }

    fn equal(&self, left: &str, right: &str) -> (r: Result<bool, Error>)
        ensures
            r matches Err(e) && e@ == "float arithmetic is not available"@,
    {
        Err(Error::new("float arithmetic is not available"))
    }
}

/// A float value with the given text.
pub open spec fn float(text: Seq<char>) -> Val {
    Val::Primitive(Prim::Float(text))
}

/// The views of a run of texts.
pub open spec fn texts_view(ts: Seq<String>) -> Seq<Seq<char>> {
    Seq::new(ts.len(), |i: int| ts[i]@)
}

/// A result as the model has it: the view of the value, or the message.
pub open spec fn outcome(r: Result<Value, Error>) -> Result<Val, Seq<char>> {
    match r {
        Ok(v) => Ok(v@),
        Err(e) => Err(e@),
    }
}

/// A verdict as the model has it: the flag, or the message.
pub open spec fn ruling(r: Result<bool, Error>) -> Result<bool, Seq<char>> {
    match r {
        Ok(seen) => Ok(seen),
        Err(e) => Err(e@),
    }
}

/// `answer` is what the unit has answered when asked for the arithmetic
/// `kind` on the floats `left` and `right`.
pub open spec fn computed<U: FloatUnit>(
    unit: &U,
    kind: OperatorKind,
    left: Seq<char>,
    right: Seq<char>,
    answer: Result<String, Error>,
) -> bool {
    exists|l: &str, r: &str|
        l@ == left && r@ == right && #[trigger] call_ensures(
            U::arithmetic,
            (unit, kind, l, r),
            answer,
        )
}

/// `answer` is what the unit has answered when asked whether the floats
/// `left` and `right` are equal.
pub open spec fn compared<U: FloatUnit>(
    unit: &U,
    left: Seq<char>,
    right: Seq<char>,
    answer: Result<bool, Error>,
) -> bool {
    exists|l: &str, r: &str|
        l@ == left && r@ == right && #[trigger] call_ensures(U::equal, (unit, l, r), answer)
}

/// `r` is what the fold of `kind` over the floats from index `i` on gives,
/// the running value being `acc`: each step is what the unit has answered to
/// the running value and the next float, the first error that it answers
/// with ends the fold, and the last value is the result.
pub open spec fn folded<U: FloatUnit>(
    unit: &U,
    kind: OperatorKind,
    texts: Seq<Seq<char>>,
    i: int,
    acc: Seq<char>,
    r: Result<Val, Seq<char>>,
) -> bool
    decreases texts.len() - i,
{
    if i < 0 || i >= texts.len() {
        r == Ok::<Val, Seq<char>>(float(acc))
    } else {
        exists|answer: Result<String, Error>|
            #[trigger] computed(unit, kind, acc, texts[i], answer) && match answer {
                Ok(next) => folded(unit, kind, texts, i + 1, next@, r),
                Err(e) => r == Err::<Val, Seq<char>>(e@),
            }
    }
}

/// `verdict` is what comes of the zero policy in front of a division of
/// the running value `acc`: the flag that a zero has occurred, as it then
/// stands, or the message to fail with. `by_zero` says whether the divisor
/// is zero. Where it is, the unit is asked whether the running value is zero
/// and whether it is one, and the zero policy decides; an error that the
/// unit answers with is the verdict's.
pub open spec fn zero_checked<U: FloatUnit>(
    unit: &U,
    acc: Seq<char>,
    seen_zero: bool,
    by_zero: bool,
    verdict: Result<bool, Seq<char>>,
) -> bool {
    if !by_zero {
        verdict == Ok::<bool, Seq<char>>(seen_zero)
    } else {
        exists|is_zero: Result<bool, Error>|
            #[trigger] compared(unit, acc, "0.0"@, is_zero) && match is_zero {
                Ok(zero) => exists|is_one: Result<bool, Error>|
                    #[trigger] compared(unit, acc, "1.0"@, is_one) && match is_one {
                        Ok(one) => match zero_policy(true, seen_zero, zero, one) {
                            Some(m) => verdict == Err::<bool, Seq<char>>(m),
                            None => verdict == Ok::<bool, Seq<char>>(true),
                        },
                        Err(e) => verdict == Err::<bool, Seq<char>>(e@),
                    },
                Err(e) => verdict == Err::<bool, Seq<char>>(e@),
            }
    }
}

/// `r` is what the division of the running value `acc` by the operands
/// from index `i` on gives, from left to right. `seen_zero` says that a zero
/// has occurred before.
///
/// An operand that is no float ends it with the error of its type. Of a
/// float, the unit is asked whether it is zero; then the zero policy is
/// consulted ([`zero_checked`]); then the unit is asked for the quotient,
/// which is the next running value. The first error ends the division.
pub open spec fn divided<U: FloatUnit>(
    unit: &U,
    vals: Seq<Prim>,
    i: int,
    acc: Seq<char>,
    seen_zero: bool,
    r: Result<Val, Seq<char>>,
) -> bool
    decreases vals.len() - i,
{
    if i < 0 || i >= vals.len() {
        r == Ok::<Val, Seq<char>>(float(acc))
    } else {
        match vals[i] {
            Prim::Float(v) => exists|by_zero: Result<bool, Error>|
                #[trigger] compared(unit, v, "0.0"@, by_zero) && match by_zero {
                    Ok(zero) => exists|verdict: Result<bool, Seq<char>>|
                        #[trigger] zero_checked(unit, acc, seen_zero, zero, verdict)
                            && match verdict {
                            Ok(seen) => exists|answer: Result<String, Error>|
                                #[trigger] computed(unit, OperatorKind::Divide, acc, v, answer)
                                    && match answer {
                                    Ok(next) => divided(unit, vals, i + 1, next@, seen, r),
                                    Err(e) => r == Err::<Val, Seq<char>>(e@),
                                },
                            Err(m) => r == Err::<Val, Seq<char>>(m),
                        },
                    Err(e) => r == Err::<Val, Seq<char>>(e@),
                },
            other => r == Err::<Val, Seq<char>>(misfit(OperatorKind::Divide, vals[0], other)),
        }
    }
}

/// `r` is what the division of the float `first` by the operands behind the
/// first one gives: the unit is asked whether `first` is zero, and then the
/// operands are divided by, one after the other.
pub open spec fn divides<U: FloatUnit>(
    unit: &U,
    vals: Seq<Prim>,
    first: Seq<char>,
    r: Result<Val, Seq<char>>,
) -> bool {
    exists|is_zero: Result<bool, Error>|
        #[trigger] compared(unit, first, "0.0"@, is_zero) && match is_zero {
            Ok(zero) => divided(unit, vals, 1, first, zero, r),
            Err(e) => r == Err::<Val, Seq<char>>(e@),
        }
}

/// The texts of operands that are all floats.
pub open spec fn float_texts(vals: Seq<Prim>) -> Seq<Seq<char>> {
    Seq::new(vals.len(), |i: int| vals[i]->Float_0)
}

/// `r` is what an operator other than `!` gives when applied to operands
/// whose types leave the outcome to the floats: for `==` what the unit has
/// answered when asked whether the first and the last operand are equal, for
/// `/` what [`divides`] says, and for `+`, `-` and `*` what [`folded`] says
/// of all the operands.
pub open spec fn applied<U: FloatUnit>(
    unit: &U,
    kind: OperatorKind,
    vals: Seq<Prim>,
    r: Result<Val, Seq<char>>,
) -> bool {
    match kind {
        OperatorKind::Equal => exists|answer: Result<bool, Error>|
            #[trigger] compared(unit, vals[0]->Float_0, vals.last()->Float_0, answer)
                && match answer {
                Ok(same) => r == Ok::<Val, Seq<char>>(boolean(same)),
                Err(e) => r == Err::<Val, Seq<char>>(e@),
            },
        OperatorKind::Divide => divides(unit, vals, vals[0]->Float_0, r),
        _ => folded(unit, kind, float_texts(vals), 1, vals[0]->Float_0, r),
    }
}

/// Whatever the fold gives from index `i` on, the running value being
/// `acc`, the whole fold gives.
pub open spec fn fold_leads<U: FloatUnit>(
    unit: &U,
    kind: OperatorKind,
    texts: Seq<Seq<char>>,
    i: int,
    acc: Seq<char>,
) -> bool {
    forall|r: Result<Val, Seq<char>>| #[trigger]
        folded(unit, kind, texts, i, acc, r) ==> folded(unit, kind, texts, 1, texts[0], r)
}

/// One step of the fold: the unit's error is the error of the whole fold,
/// and its value the running value from which the fold goes on.
pub proof fn lemma_fold_step<U: FloatUnit>(
    unit: &U,
    kind: OperatorKind,
    texts: Seq<Seq<char>>,
    i: int,
    acc: Seq<char>,
    answer: Result<String, Error>,
)
    requires
        0 <= i < texts.len(),
        computed(unit, kind, acc, texts[i], answer),
        fold_leads(unit, kind, texts, i, acc),
    ensures
        match answer {
            Ok(next) => fold_leads(unit, kind, texts, i + 1, next@),
            Err(e) => folded(unit, kind, texts, 1, texts[0], Err(e@)),
        },
{
    match answer {
        Ok(next) => {
            assert forall|r: Result<Val, Seq<char>>| #[trigger]
                folded(unit, kind, texts, i + 1, next@, r) implies folded(
                unit,
                kind,
                texts,
                1,
                texts[0],
                r,
            ) by {
                assert(folded(unit, kind, texts, i, acc, r));
            }
        },
        Err(e) => {
            assert(folded(unit, kind, texts, i, acc, Err(e@)));
        },
    }
}

/// The end of the fold: the running value is the result of the whole fold.
pub proof fn lemma_fold_end<U: FloatUnit>(
    unit: &U,
    kind: OperatorKind,
    texts: Seq<Seq<char>>,
    acc: Seq<char>,
)
    requires
        texts.len() >= 1,
        fold_leads(unit, kind, texts, texts.len() as int, acc),
    ensures
        folded(unit, kind, texts, 1, texts[0], Ok(float(acc))),
{
    assert(folded(unit, kind, texts, texts.len() as int, acc, Ok(float(acc))));
}

/// Whatever the division gives from index `i` on, the running value being
/// `acc`, the whole division of `first` gives.
pub open spec fn division_leads<U: FloatUnit>(
    unit: &U,
    vals: Seq<Prim>,
    first: Seq<char>,
    i: int,
    acc: Seq<char>,
    seen_zero: bool,
) -> bool {
    forall|r: Result<Val, Seq<char>>| #[trigger]
        divided(unit, vals, i, acc, seen_zero, r) ==> divides(unit, vals, first, r)
}

/// One operand of the division, a float: what the division gives from it
/// on, given what the unit has answered and what the zero policy has said.
pub proof fn lemma_division_step<U: FloatUnit>(
    unit: &U,
    vals: Seq<Prim>,
    i: int,
    acc: Seq<char>,
    seen_zero: bool,
    by_zero: Result<bool, Error>,
    verdict: Result<bool, Seq<char>>,
    answer: Result<String, Error>,
    r: Result<Val, Seq<char>>,
)
    requires
        0 <= i < vals.len(),
        vals[i] is Float,
        compared(unit, vals[i]->Float_0, "0.0"@, by_zero),
        match by_zero {
            Ok(zero) => zero_checked(unit, acc, seen_zero, zero, verdict) && match verdict {
                Ok(seen) => computed(unit, OperatorKind::Divide, acc, vals[i]->Float_0, answer)
                    && match answer {
                    Ok(next) => divided(unit, vals, i + 1, next@, seen, r),
                    Err(e) => r == Err::<Val, Seq<char>>(e@),
                },
                Err(m) => r == Err::<Val, Seq<char>>(m),
            },
            Err(e) => r == Err::<Val, Seq<char>>(e@),
        },
    ensures
        divided(unit, vals, i, acc, seen_zero, r),
{
}

} // verus!
