//! The evaluator: a program and a scope in, a value out.

pub mod floats;
pub mod ops;
pub mod scope;
pub mod semantics;
pub mod value;

pub use floats::{FloatUnit, NoFloats};
pub use scope::Scope;

use vstd::prelude::*;
use crate::error::Error;
use crate::parser::ast::Program;
use semantics::{eval_program, ran};
use value::Value;

verus! {

/// Runs a program in a scope.
///
/// The statements run in order; the result is the value of the last one,
/// and null for an empty program. The first error ends the run, and what
/// the statements before it bound stays bound.
///
/// Calls may be nested [`semantics::CALL_DEPTH`] deep. That limit is the
/// library's own, not the language's: a call nested deeper fails with
/// "maximum call depth exceeded" instead of exhausting the stack.
///
/// Arithmetic on floats and comparisons of floats are the unit's; what is
/// promised of a program that reaches one ends there.
pub fn eval<U: FloatUnit>(program: Program, scope: &mut Scope, unit: &U) -> (r: Result<
    Value,
    Error,
>)
    ensures
        ran(
            *old(scope),
            *final(scope),
            r,
            eval_program(program@, old(scope).top(), old(scope).rest()),
        ),
{
    Value::eval_statements(&program.statements, scope, unit)
}

} // verus!
