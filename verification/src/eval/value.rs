//! Values, and the evaluation of statements and expressions.

use vstd::prelude::*;
use vstd::string::*;
use crate::error::Error;
use crate::parser::ast::{
    boxed_stmts_view, copy_identifiers, copy_primitive, copy_statements, exprs_view, names_view,
    stmts_view, And, Assign, Call, Expression, Function, If, Or, Primitive, Statement,
};
use crate::text::{join, render_integer, render_natural};
use super::floats::FloatUnit;
use super::ops::eval_operator;
use super::scope::Scope;
use super::semantics::{
    agrees, arity_fits, bind_arguments, boolean, eval_all, eval_block, eval_expr, eval_stmt, holds,
    kind_name, lookup, null, ran, room, value_kind_name, value_text, values_view, Frame, Stop, Val,
    CALL_DEPTH,
};

verus! {

/// What an expression evaluates to.
#[derive(Debug, PartialEq)]
pub enum Value {
    Primitive(Primitive),
    Function(Function),
}

impl View for Value {
    type V = Val;

    open spec fn view(&self) -> Val {
        match self {
            Value::Primitive(p) => Val::Primitive(p@),
            Value::Function(f) => Val::Function(names_view(f.params@), stmts_view(f.body@)),
        }
    }
}

impl Clone for Value {
    fn clone(&self) -> (r: Self)
        ensures
            r@ == self@,
    {
        match self {
            Value::Primitive(p) => Value::Primitive(copy_primitive(p)),
            Value::Function(f) => Value::Function(
                Function { params: copy_identifiers(&f.params), body: copy_statements(&f.body) },
            ),
        }
    }
}

impl Primitive {
    /// The name of the primitive's type.
    pub fn to_string(&self) -> (s: String)
        ensures
            s@ == kind_name(self@),
    {
        match self {
            Primitive::Integer(_) => String::from_str("integer"),
            Primitive::Float(_) => String::from_str("float"),
            Primitive::String(_) => String::from_str("string"),
            Primitive::Boolean(_) => String::from_str("boolean"),
            Primitive::Null => String::from_str("null"),
        }
    }
}

/// Whether a value counts as true for `&&` and `||`.
fn counts(v: &Value) -> (b: bool)
    ensures
        b == holds(v@),
{
    match v {
        Value::Primitive(Primitive::Boolean(b)) => *b,
        Value::Primitive(Primitive::Null) => false,
        _ => true,
    }
}

/// The values of the operands of `&&` or `||`, all of them, in order.
fn eval_every<U: FloatUnit>(args: &Vec<Expression>, scope: &mut Scope, unit: &U) -> (r: Result<
    Vec<Value>,
    Error,
>)
    ensures
        final(scope).top() == old(scope).top(),
        final(scope).rest() == old(scope).rest(),
        match eval_all(exprs_view(args@), old(scope).top(), old(scope).rest(), 0, Seq::empty()) {
            Ok(vals) => r matches Ok(vs) && values_view(vs@) == vals,
            Err(Stop::Error(m)) => r matches Err(e) && e@ == m,
            Err(Stop::Float) => true,
        },
    decreases room(old(scope).rest()), args, 0nat,
{
    let ghost top = scope.top();
    let ghost rest = scope.rest();
    let ghost model = eval_all(exprs_view(args@), top, rest, 0, Seq::empty());
    let mut values: Vec<Value> = Vec::new();
    assert(values_view(values@) =~= Seq::<Val>::empty());
    let mut i: usize = 0;
    while i < args.len()
        invariant
            i <= args@.len(),
            scope.top() == top,
            scope.rest() == rest,
            top == old(scope).top(),
            rest == old(scope).rest(),
            model == eval_all(exprs_view(args@), top, rest, 0, Seq::empty()),
            model == Err::<Seq<Val>, Stop>(Stop::Float) || eval_all(
                exprs_view(args@),
                top,
                rest,
                i as int,
                values_view(values@),
            ) == model,
        decreases args@.len() - i,
    {
        assert(exprs_view(args@)[i as int] == args@[i as int]@);
        match Value::eval_expr(&args[i], scope, unit) {
            Ok(v) => {
                assert(values_view(values@.push(v)) =~= values_view(values@).push(v@));
                values.push(v);
            },
            Err(e) => {
                return Err(e);
            },
        }
        i = i + 1;
    }
    Ok(values)
}

impl Value {
    /// Runs an assignment: the value of the right-hand side is bound to
    /// the name in the scope's own frame, and returned.
    pub fn eval_assign<U: FloatUnit>(a: &Assign, scope: &mut Scope, unit: &U) -> (r: Result<
        Value,
        Error,
    >)
        ensures
            ran(*old(scope), *final(scope), r, eval_stmt(a@, old(scope).top(), old(scope).rest())),
        decreases room(old(scope).rest()), a, 0nat,
    {
        let value = match Value::eval_expr(&a.value, scope, unit) {
            Ok(v) => v,
            Err(e) => {
                return Err(e);
            },
        };
        scope.set(&a.name, &value);
        Ok(value)
    }

    /// Runs an `if`: the block that the condition picks runs in the same
    /// scope, and the result is null.
    pub fn eval_if_condition<U: FloatUnit>(i: &If, scope: &mut Scope, unit: &U) -> (r: Result<
        Value,
        Error,
    >)
        ensures
            ran(*old(scope), *final(scope), r, eval_stmt(i@, old(scope).top(), old(scope).rest())),
        decreases room(old(scope).rest()), i, 0nat,
    {
        let condition = match Value::eval_expr(&i.condition, scope, unit) {
            Ok(Value::Primitive(p)) => match p {
                Primitive::Boolean(v) => v,
                Primitive::Null => false,
                _ => true,
            },
            Ok(Value::Function(_)) => {
                return Err(Error::new("cannot use type function as a condition"));
            },
            Err(e) => {
                return Err(e);
            },
        };
        let done = if condition {
            Value::eval_block(&i.consequence, scope, unit)
        } else {
            match &i.alternative {
                Some(alternative) => Value::eval_block(alternative, scope, unit),
                None => Ok(Value::Primitive(Primitive::Null)),
            }
        };
        match done {
            Ok(_) => Ok(Value::Primitive(Primitive::Null)),
            Err(e) => Err(e),
        }
    }

    /// Runs the statements of a block of an `if`, one after the other.
    fn eval_block<U: FloatUnit>(ss: &Vec<Box<Statement>>, scope: &mut Scope, unit: &U) -> (r:
        Result<Value, Error>)
        ensures
            ran(
                *old(scope),
                *final(scope),
                r,
                eval_block(boxed_stmts_view(ss@), old(scope).top(), old(scope).rest(), 0, null()),
            ),
        decreases room(old(scope).rest()), ss, 0nat,
    {
        let ghost top = scope.top();
        let ghost rest = scope.rest();
        let ghost model = eval_block(boxed_stmts_view(ss@), top, rest, 0, null());
        let mut result = Value::Primitive(Primitive::Null);
        let mut i: usize = 0;
        while i < ss.len()
            invariant
                i <= ss@.len(),
                scope.rest() == rest,
                rest == old(scope).rest(),
                model == eval_block(
                    boxed_stmts_view(ss@),
                    old(scope).top(),
                    old(scope).rest(),
                    0,
                    null(),
                ),
                model.0 == Err::<Val, Stop>(Stop::Float) || eval_block(
                    boxed_stmts_view(ss@),
                    scope.top(),
                    rest,
                    i as int,
                    result@,
                ) == model,
            decreases ss@.len() - i,
        {
            assert(boxed_stmts_view(ss@)[i as int] == (*ss@[i as int])@);
            match Value::eval_statement(&ss[i], scope, unit) {
                Ok(v) => {
                    result = v;
                },
                Err(e) => {
                    return Err(e);
                },
            }
            i = i + 1;
        }
        Ok(result)
    }

    /// Runs statements, one after the other: those of a program or of a
    /// function's body. The result is that of the last one, and null where
    /// there is none.
    pub fn eval_statements<U: FloatUnit>(ss: &Vec<Statement>, scope: &mut Scope, unit: &U) -> (r:
        Result<Value, Error>)
        ensures
            ran(
                *old(scope),
                *final(scope),
                r,
                eval_block(stmts_view(ss@), old(scope).top(), old(scope).rest(), 0, null()),
            ),
        decreases room(old(scope).rest()), ss, 0nat,
    {
        let ghost top = scope.top();
        let ghost rest = scope.rest();
        let ghost model = eval_block(stmts_view(ss@), top, rest, 0, null());
        let mut result = Value::Primitive(Primitive::Null);
        let mut i: usize = 0;
        while i < ss.len()
            invariant
                i <= ss@.len(),
                scope.rest() == rest,
                rest == old(scope).rest(),
                model == eval_block(stmts_view(ss@), old(scope).top(), old(scope).rest(), 0, null()),
                model.0 == Err::<Val, Stop>(Stop::Float) || eval_block(
                    stmts_view(ss@),
                    scope.top(),
                    rest,
                    i as int,
                    result@,
                ) == model,
            decreases ss@.len() - i,
        {
            assert(stmts_view(ss@)[i as int] == ss@[i as int]@);
            match Value::eval_statement(&ss[i], scope, unit) {
                Ok(v) => {
                    result = v;
                },
                Err(e) => {
                    return Err(e);
                },
            }
            i = i + 1;
        }
        Ok(result)
    }

    /// Runs one statement.
    pub fn eval_statement<U: FloatUnit>(s: &Statement, scope: &mut Scope, unit: &U) -> (r: Result<
        Value,
        Error,
    >)
        ensures
            ran(*old(scope), *final(scope), r, eval_stmt(s@, old(scope).top(), old(scope).rest())),
        decreases room(old(scope).rest()), s, 1nat,
    {
        match s {
            Statement::Assign(a) => Value::eval_assign(a, scope, unit),
            Statement::If(i) => Value::eval_if_condition(i, scope, unit),
            Statement::Expression(e) => Value::eval_expr(e, scope, unit),
        }
    }

    /// The value of an expression. The scope is read, and left as it is.
    pub fn eval_expr<U: FloatUnit>(e: &Expression, scope: &mut Scope, unit: &U) -> (r: Result<
        Value,
        Error,
    >)
        ensures
            final(scope).top() == old(scope).top(),
            final(scope).rest() == old(scope).rest(),
            agrees(r, eval_expr(e@, old(scope).top(), old(scope).rest())),
        decreases room(old(scope).rest()), e, 1nat,
    {
        match e {
            Expression::Primitive(v) => Ok(Value::Primitive(v.clone())),
            Expression::Identifier(i) => match scope.get(i) {
                Some(v) => Ok(v.clone()),
                None => Err(Error::from_string(join("undefined variable ", i.value.as_str()))),
            },
            Expression::Operator(v) => eval_operator(v, scope, unit),
            Expression::Function(v) => Ok(Value::Function(v.clone())),
            Expression::Call(v) => Value::eval_call(v, scope, unit),
            Expression::And(v) => Value::eval_logic_and(v, scope, unit),
            Expression::Or(v) => Value::eval_logic_or(v, scope, unit),
        }
    }

    /// Calls a function: its body runs in a fresh scope around which a
    /// copy of the caller's scope stands, with the arguments bound to the
    /// parameters one by one.
    ///
    /// A call made in a scope around which [`CALL_DEPTH`] scopes stand
    /// already fails with "maximum call depth exceeded". That limit is the
    /// library's own, not the language's: it keeps a chain of calls without
    /// end from exhausting the stack.
    pub fn eval_call<U: FloatUnit>(call: &Call, scope: &mut Scope, unit: &U) -> (r: Result<
        Value,
        Error,
    >)
        ensures
            final(scope).top() == old(scope).top(),
            final(scope).rest() == old(scope).rest(),
            agrees(r, eval_expr(call@, old(scope).top(), old(scope).rest())),
        decreases room(old(scope).rest()), call, 0nat,
    {
        let ghost top = scope.top();
        let ghost rest = scope.rest();
        let fun = match scope.get(&call.name) {
            None => {
                return Err(
                    Error::from_string(
                        join("undefined function variable ", call.name.value.as_str()),
                    ),
                );
            },
            Some(Value::Primitive(p)) => {
                let mut msg = String::from_str("cannot call type ");
                msg.append(p.to_string().as_str());
                msg.append(" as a function");
                return Err(Error::from_string(msg));
            },
            Some(Value::Function(f)) => f,
        };
        let ghost params = names_view(fun.params@);
        let ghost body = stmts_view(fun.body@);
        let ghost args = exprs_view(call.args@);
        if call.args.len() != fun.params.len() {
            if call.args.len() == 1 && fun.params.len() == 0 {
                assert(args[0] == call.args@[0]@);
                match &call.args[0] {
                    Expression::Primitive(Primitive::Null) => {},
                    _ => {
                        let mut msg = String::from_str("function ");
                        msg.append(call.name.value.as_str());
                        msg.append(" can only be called with ()");
                        return Err(Error::from_string(msg));
                    },
                }
            } else {
                let mut msg = String::from_str("expected ");
                msg.append(render_natural(fun.params.len() as u64).as_str());
                msg.append(" arguments to function ");
                msg.append(call.name.value.as_str());
                return Err(Error::from_string(msg));
            }
        }
        if scope.nested(CALL_DEPTH) {
            return Err(Error::new("maximum call depth exceeded"));
        }
        let mut child = Scope::inside(scope);
        let ghost around = seq![top] + rest;
        let ghost bound = bind_arguments(params, args, Map::empty(), around, 0);
        let mut i: usize = 0;
        while i < fun.params.len() && i < call.args.len()
            invariant
                i <= fun.params@.len(),
                i <= call.args@.len(),
                params == names_view(fun.params@),
                args == exprs_view(call.args@),
                child.rest() == around,
                around == seq![top] + rest,
                top == old(scope).top(),
                rest == old(scope).rest(),
                lookup(top, rest, call.name@) == Some(Val::Function(params, body)),
                arity_fits(params.len(), args),
                rest.len() < CALL_DEPTH,
                bound == bind_arguments(params, args, Map::empty(), around, 0),
                bound == Err::<Frame, Stop>(Stop::Float) || bind_arguments(
                    params,
                    args,
                    child.top(),
                    around,
                    i as int,
                ) == bound,
            decreases call.args@.len() - i,
        {
            assert(args[i as int] == call.args@[i as int]@);
            assert(params[i as int] == fun.params@[i as int]@);
            let v = match Value::eval_expr(&call.args[i], &mut child, unit) {
                Ok(v) => v,
                Err(e) => {
                    return Err(e);
                },
            };
            child.set(&fun.params[i], &v);
            i = i + 1;
        }
        Value::eval_statements(&fun.body, &mut child, unit)
    }

    /// `&& a b ..`: every operand is evaluated; the result is false where
    /// one of them is false or null, and true otherwise.
    pub fn eval_logic_and<U: FloatUnit>(and: &And, scope: &mut Scope, unit: &U) -> (r: Result<
        Value,
        Error,
    >)
        ensures
            final(scope).top() == old(scope).top(),
            final(scope).rest() == old(scope).rest(),
            agrees(r, eval_expr(and@, old(scope).top(), old(scope).rest())),
        decreases room(old(scope).rest()), and, 0nat,
    {
        let values = match eval_every(&and.0, scope, unit) {
            Ok(vs) => vs,
            Err(e) => {
                return Err(e);
            },
        };
        let ghost vals = values_view(values@);
        let mut all = true;
        let mut i: usize = 0;
        while i < values.len()
            invariant
                i <= values@.len(),
                vals == values_view(values@),
                all == forall|j: int| 0 <= j < i ==> holds(#[trigger] vals[j]),
            decreases values@.len() - i,
        {
            assert(vals[i as int] == values@[i as int]@);
            if !counts(&values[i]) {
                all = false;
            }
            i = i + 1;
        }
        Ok(Value::Primitive(Primitive::Boolean(all)))
    }

    /// `|| a b ..`: every operand is evaluated; the result is true where
    /// one of them is neither false nor null, and false otherwise.
    pub fn eval_logic_or<U: FloatUnit>(or: &Or, scope: &mut Scope, unit: &U) -> (r: Result<
        Value,
        Error,
    >)
        ensures
            final(scope).top() == old(scope).top(),
            final(scope).rest() == old(scope).rest(),
            agrees(r, eval_expr(or@, old(scope).top(), old(scope).rest())),
        decreases room(old(scope).rest()), or, 0nat,
    {
        let values = match eval_every(&or.0, scope, unit) {
            Ok(vs) => vs,
            Err(e) => {
                return Err(e);
            },
        };
        let ghost vals = values_view(values@);
        let mut any = false;
        let mut i: usize = 0;
        while i < values.len()
            invariant
                i <= values@.len(),
                vals == values_view(values@),
                any == exists|j: int| 0 <= j < i && holds(#[trigger] vals[j]),
            decreases values@.len() - i,
        {
            assert(vals[i as int] == values@[i as int]@);
            if counts(&values[i]) {
                any = true;
            }
            i = i + 1;
        }
        Ok(Value::Primitive(Primitive::Boolean(any)))
    }

    /// The value as text: a number in decimal, a string as it is, `true`,
    /// `false`, `null` or `function`.
    pub fn value(&self) -> (s: String)
        ensures
            s@ == value_text(self@),
    {
        match self {
            Value::Primitive(p) => match p {
                Primitive::Integer(v) => render_integer(*v),
                Primitive::Float(v) => v.clone(),
                Primitive::String(v) => v.clone(),
                Primitive::Boolean(v) => if *v {
                    String::from_str("true")
                } else {
                    String::from_str("false")
                },
                Primitive::Null => String::from_str("null"),
            },
            Value::Function(_) => String::from_str("function"),
        }
    }

    /// The name of the value's type.
    pub fn to_string(&self) -> (s: String)
        ensures
            s@ == value_kind_name(self@),
    {
        match self {
            Value::Primitive(p) => p.to_string(),
            Value::Function(_) => String::from_str("function"),
        }
    }
}

} // verus!
