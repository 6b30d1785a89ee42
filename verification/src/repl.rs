//! One turn of the read-eval-print loop: a text in, a value or an error out.
//!
//! Reading the text and printing the answer are the caller's; so is the
//! choice between one scope kept from turn to turn and a fresh one for
//! every text.

use vstd::prelude::*;
use vstd::string::*;
use crate::error::Error;
use crate::eval::semantics::{
    eval_program, ran, value_kind_name, value_text, Frame, Stop, Val,
};
use crate::eval::value::Value;
use crate::eval::{eval, FloatUnit, Scope};
use crate::lexer::model::lex_text;
use crate::lexer::Lexer;
use crate::parser::grammar::parse_program;
use crate::parser::Parser;

verus! {

/// What a source text gives in a scope, and the scope's own frame behind
/// it: the text is lexed, the tokens are parsed, and the program is run. A
/// text that does not parse fails with the parser's message and leaves the
/// scope as it was.
pub open spec fn run(source: Seq<char>, frame: Frame, outer: Seq<Frame>) -> (
    Result<Val, Stop>,
    Frame,
) {
    match parse_program(lex_text(source)) {
        Ok(program) => eval_program(program, frame, outer),
        Err(msg) => (Err(Stop::Error(msg)), frame),
    }
}

/// Lexes, parses and runs a source text in the given scope.
///
/// Calls may be nested [`crate::eval::semantics::CALL_DEPTH`] deep. That
/// limit is the library's own, not the language's: a call nested deeper
/// fails with "maximum call depth exceeded" instead of exhausting the stack.
pub fn interpret<U: FloatUnit>(source: &str, scope: &mut Scope, unit: &U) -> (r: Result<
    Value,
    Error,
>)
    ensures
        ran(*old(scope), *final(scope), r, run(source@, old(scope).top(), old(scope).rest())),
{
    let tokens = Lexer::new(source).lex();
    let mut parser = Parser::new(tokens);
    match parser.parse() {
        Ok(program) => eval(program, scope, unit),
        Err(e) => Err(e),
    }
}

/// How a result is shown: the value, a colon, and the name of the value's
/// type.
pub open spec fn answer(v: Val) -> Seq<char> {
    value_text(v) + " : "@ + value_kind_name(v)
}

/// The line that reports a value.
pub fn show(value: &Value) -> (line: String)
    ensures
        line@ == answer(value@),
{
    let mut line = value.value();
    line.append(" : ");
    line.append(value.to_string().as_str());
    line
}

} // verus!
