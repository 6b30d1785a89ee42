use clip::error::Error;
use clip::eval::ops::{
    eval_operator, eval_operator_add, eval_operator_divide, eval_operator_equal,
    eval_operator_multiply, eval_operator_subtract, zero_division,
};
use clip::eval::semantics::CALL_DEPTH;
use clip::eval::value::Value;
use clip::eval::{eval, FloatUnit, NoFloats, Scope};
use clip::lexer::Lexer;
use clip::parser::ast::{
    Assign, Expression, Function, Identifier, If, Operator, OperatorKind, Primitive, Program,
    Statement,
};
use clip::parser::Parser;
use clip::repl::{interpret, show};

/// Floats as the machine has them.
struct Machine;

fn read(text: &str) -> Result<f64, Error> {
    text.parse::<f64>().map_err(|e| Error::new(&e.to_string()))
}

impl FloatUnit for Machine {
    fn arithmetic(&self, kind: OperatorKind, left: &str, right: &str) -> Result<String, Error> {
        let (a, b) = (read(left)?, read(right)?);
        let result = match kind {
            OperatorKind::Add => a + b,
            OperatorKind::Subtract => a - b,
            OperatorKind::Multiply => a * b,
            OperatorKind::Divide => a / b,
            _ => return Err(Error::new("no such arithmetic")),
        };
        Ok(result.to_string())
    }

    fn equal(&self, left: &str, right: &str) -> Result<bool, Error> {
        Ok(read(left)? == read(right)?)
    }
}

fn run(source: &str, scope: &mut Scope) -> Result<Value, String> {
    interpret(source, scope, &Machine).map_err(|e| e.to_string())
}

fn fresh(source: &str) -> Result<Value, String> {
    run(source, &mut Scope::new())
}

fn integer(n: i64) -> Value {
    Value::Primitive(Primitive::Integer(n))
}

fn float(text: &str) -> Value {
    Value::Primitive(Primitive::Float(text.to_string()))
}

fn string(text: &str) -> Value {
    Value::Primitive(Primitive::String(text.to_string()))
}

fn boolean(b: bool) -> Value {
    Value::Primitive(Primitive::Boolean(b))
}

fn null() -> Value {
    Value::Primitive(Primitive::Null)
}

fn fails(source: &str, message: &str) {
    assert_eq!(fresh(source), Err(message.to_string()), "{}", source);
}

fn gives(source: &str, value: Value) {
    assert_eq!(fresh(source), Ok(value), "{}", source);
}

fn name(s: &str) -> Identifier {
    Identifier { value: s.to_string() }
}

#[test]
fn test_integer_literal_evaluates_to_its_value() {
    gives("0", integer(0));
    gives("7", integer(7));
    gives("123456", integer(123456));
    gives("1_000", integer(1000));
    gives("007", integer(7));
    gives("9223372036854775807", integer(i64::MAX));
}

#[test]
fn test_literals() {
    gives("\"abc\"", string("abc"));
    gives("true", boolean(true));
    gives("false", boolean(false));
    gives("()", null());
    gives("1.50", float("1.50"));
}

#[test]
fn test_empty_program_is_null() {
    gives("", null());
    gives("\n\n", null());
}

#[test]
fn test_add() {
    gives("+ \"a\" \"b\" \"c\"", string("abc"));
    gives("+ 1 2 3", integer(6));
    gives("+ 1 (+ 2 3) 4", integer(10));
}

#[test]
fn test_add_errors() {
    fails("+ 1 \"a\"", "cannot add type integer with type string");
    fails("+ \"a\" 1", "cannot add type string with type integer");
    fails("+ 1 ()", "cannot add type integer with type null");
    fails("+ 1.5 2", "cannot add type float with type integer");
    fails("+ true true", "cannot add type boolean");
    fails("+ () 1", "cannot add type null");
    fails("+ 1", "expected at least 2 arguments for add operator");
    fails("+", "expected at least 2 arguments for add operator");
    fails("+ 9223372036854775807 1", "attempt to add with overflow");
    // A wrong type is found before the sum is taken.
    fails("+ 9223372036854775807 1 \"a\"", "cannot add type integer with type string");
}

#[test]
fn test_subtract() {
    gives("- 10 1 2", integer(7));
    gives("- 1 2", integer(-1));
    fails("- 1 \"a\"", "cannot subtract type integer with type string");
    fails("- \"a\" \"b\"", "cannot subtract type string");
    fails("- 1", "expected at least 2 arguments for subtract operator");
    fails("- (- 0 9223372036854775807) 2", "attempt to subtract with overflow");
    // The fold stops at the first thing that goes wrong.
    fails("- (- 0 9223372036854775807) 2 \"a\"", "attempt to subtract with overflow");
    fails("- 1 \"a\" 2", "cannot subtract type integer with type string");
}

#[test]
fn test_multiply() {
    gives("* 2 3 4", integer(24));
    gives("* 2 (- 0 3)", integer(-6));
    fails("* 2 true", "cannot multiply type integer with type boolean");
    fails("* true 2", "cannot multiply type boolean");
    fails("* 2", "expected at least 2 arguments for multiply operator");
    fails("* 9223372036854775807 2", "attempt to multiply with overflow");
}

#[test]
fn test_divide() {
    gives("/ 4 2", integer(2));
    gives("/ 7 2", integer(3));
    gives("/ (- 0 7) 2", integer(-3));
    gives("/ 7 (- 0 2)", integer(-3));
    gives("/ (- 0 7) (- 0 2)", integer(3));
    gives("/ 100 5 2", integer(10));
    gives("/ 0 5", integer(0));
}

#[test]
fn test_divide_by_zero() {
    fails("/ 1 0", "infinity division");
    fails("/ 0 0", "cannot divide 0 by 0");
    fails("/ 0 5 0", "cannot divide 0 by 0");
    fails("/ 5 5 0", "infinity division");
    fails("/ 4 0", "attempt to divide by zero");
    fails("/ 4 8 0", "cannot divide 0 by 0");
}

#[test]
fn test_divide_errors() {
    fails("/ 4 \"a\"", "cannot divide type integer with type string");
    fails("/ \"a\" 4", "cannot divide type string");
    fails("/ 4", "expected at least 2 arguments for divide operator");
    fails("/ (- (- 0 9223372036854775807) 1) (- 0 1)", "attempt to divide with overflow");
}

#[test]
fn test_equal() {
    gives("== 1 1", boolean(true));
    gives("== 1 2", boolean(false));
    gives("== \"a\" \"a\"", boolean(true));
    gives("== \"a\" \"b\"", boolean(false));
    gives("== true true", boolean(true));
    gives("== true false", boolean(false));
    gives("== () ()", boolean(true));
    gives("== () 1", boolean(false));
    gives("== 1 ()", boolean(false));
    gives("== \"a\" ()", boolean(false));
    // The last operand decides.
    gives("== 1 2 1", boolean(true));
    gives("== 1 1 2", boolean(false));
    gives("== () 1 ()", boolean(true));
    gives("== 1 () 1", boolean(true));
}

#[test]
fn test_equal_errors() {
    fails("== 1 \"1\"", "cannot compare type integer with type string");
    fails("== \"1\" 1", "cannot compare type string with type integer");
    fails("== true 1", "cannot compare type boolean with type integer");
    fails("== 1.5 1", "cannot compare type float with type integer");
    fails("== 1 1 \"a\" ()", "cannot compare type integer with type string");
    fails("== 1", "expected at least 2 arguments for equal operator");
}

#[test]
fn test_inverse() {
    gives("! true", boolean(false));
    gives("! false", boolean(true));
    gives("! ! true", boolean(true));
    fails("! 1", "cannot inverse type integer");
    fails("! ()", "cannot inverse type null");
    fails("= f { }\n\n! f", "cannot inverse type function");
    fails("!", "expected exactly one argument for inverse operator");
    fails("! true false", "expected exactly one argument for inverse operator");
}

#[test]
fn test_operand_may_not_be_a_function() {
    fails("+ 1 { }", "expected at least 2 arguments for add operator");
    let mut scope = Scope::new();
    run("= f { 1; }", &mut scope).unwrap();
    assert_eq!(run("+ 1 f", &mut scope), Err("cannot compare type function".to_string()));
    assert_eq!(run("== f f", &mut scope), Err("cannot compare type function".to_string()));
}

#[test]
fn test_operands_are_evaluated_in_order() {
    fails("+ a b", "undefined variable a");
    fails("+ 1 b \"x\"", "undefined variable b");
}

#[test]
fn test_logic_and() {
    gives("&& true true", boolean(true));
    gives("&& true false", boolean(false));
    gives("&& true ()", boolean(false));
    gives("&& 1 \"a\" 2.5", boolean(true));
    gives("&& 0", boolean(true));
    gives("&&", boolean(true));
    gives("= f { }\n\n&& true f", boolean(true));
    gives("= f { }\n\n&& false f", boolean(false));
    gives("= f { };;&& f", boolean(true));
}

#[test]
fn test_logic_or() {
    gives("|| false false", boolean(false));
    gives("|| false true", boolean(true));
    gives("|| () false", boolean(false));
    gives("|| false 0", boolean(true));
    gives("||", boolean(false));
    gives("= f { }\n\n|| false f", boolean(true));
}

#[test]
fn test_logic_evaluates_every_operand() {
    fails("&& false x", "undefined variable x");
    fails("|| true x", "undefined variable x");
}

#[test]
fn test_function_literal_in_an_assignment_takes_one_separator() {
    gives("= f { }\n1", integer(1));
    gives("= f { 7 }; f ()", integer(7));
    gives("= f { }\n\n1", integer(1));
    fails("= f { } 1", "unexpected token integer: 1");
}

#[test]
fn test_undefined_variable() {
    fails("x", "undefined variable x");
}

#[test]
fn test_assign_binds_and_returns_the_value() {
    let mut scope = Scope::new();
    assert_eq!(run("= x 5", &mut scope), Ok(integer(5)));
    assert_eq!(run("x", &mut scope), Ok(integer(5)));
    assert_eq!(run("= x \"later\"", &mut scope), Ok(string("later")));
    assert_eq!(run("x", &mut scope), Ok(string("later")));
    assert_eq!(scope.get(&name("x")), Some(&string("later")));
    assert_eq!(scope.get(&name("y")), None);
}

#[test]
fn test_last_statement_gives_the_result() {
    gives("= x 1; = y 2; + x y", integer(3));
    gives("1\n2\n3", integer(3));
}

#[test]
fn test_error_keeps_what_was_bound_before_it() {
    let mut scope = Scope::new();
    assert_eq!(run("= x 1; y; = z 3", &mut scope), Err("undefined variable y".to_string()));
    assert_eq!(scope.get(&name("x")), Some(&integer(1)));
    assert_eq!(scope.get(&name("z")), None);
}

#[test]
fn test_text_that_does_not_parse_leaves_the_scope() {
    let mut scope = Scope::new();
    assert_eq!(run("= x 1 2", &mut scope), Err("unexpected token integer: 2".to_string()));
    assert_eq!(scope.get(&name("x")), None);
}

#[test]
fn test_if_runs_the_branch_in_the_same_scope() {
    let mut scope = Scope::new();
    assert_eq!(run("if true { = x 1; } else { = x 2; }", &mut scope), Ok(null()));
    assert_eq!(run("x", &mut scope), Ok(integer(1)));
    assert_eq!(run("if false { = x 1; } else { = x 2; }", &mut scope), Ok(null()));
    assert_eq!(run("x", &mut scope), Ok(integer(2)));
    gives("if true { = x 1; } else { = x 2; }\nx", integer(1));
    gives("if false { = x 1; } else { = x 2; }\nx", integer(2));
}

#[test]
fn test_if_conditions() {
    gives("if () { = x 1; } else { = x 2; }\nx", integer(2));
    gives("if 0 { = x 1; } else { = x 2; }\nx", integer(1));
    gives("if \"\" { = x 1; } else { = x 2; }\nx", integer(1));
    gives("if 0.0 { = x 1; } else { = x 2; }\nx", integer(1));
    gives("if == 1 2 { = x 1; } else { = x 2; }\nx", integer(2));
    fails(
        "= g { { }; }\n\nif (g) { 1 } else { 2 }",
        "cannot use type function as a condition",
    );
    // A name in front of a brace is a call that takes the blocks as arguments.
    fails("if y { 1 } else { 2 }", "unexpected token else");
    fails("if ! y { 1 } else { 2 }", "undefined variable y");
}

#[test]
fn test_if_without_else_at_the_top() {
    gives("if true { = x 1; }\nx", integer(1));
    fails("if false { = x 1; }\nx", "undefined variable x");
    gives("if true { 5 }", null());
    gives("= x 0; if true { if false { = x 1; } else { = x 2; } }; x", integer(2));
}

#[test]
fn test_if_is_null_and_fails_with_its_branch() {
    gives("if true { 5 } else { 6 }", null());
    fails("if true { y; } else { 6 }", "undefined variable y");
    gives("if false { y; } else { 6 }", null());
}

#[test]
fn test_if_without_else() {
    let mut scope = Scope::new();
    assert_eq!(run("= f { [c] if == c 1 { = hit true; } }", &mut scope).is_ok(), true);
    assert_eq!(run("f 1", &mut scope), Ok(null()));
    assert_eq!(run("f 2", &mut scope), Ok(null()));
}

#[test]
fn test_function_call() {
    let mut scope = Scope::new();
    run("= f { [a b] + a b }", &mut scope).unwrap();
    assert_eq!(run("f 2 3", &mut scope), Ok(integer(5)));
    assert_eq!(run("f 2", &mut scope), Err("expected 2 arguments to function f".to_string()));
    assert_eq!(run("f 1 2 3", &mut scope), Err("expected 2 arguments to function f".to_string()));
    assert_eq!(run("f ()", &mut scope), Err("expected 2 arguments to function f".to_string()));
}

#[test]
fn test_function_without_parameters() {
    let mut scope = Scope::new();
    run("= g { 7; }", &mut scope).unwrap();
    assert_eq!(run("g ()", &mut scope), Ok(integer(7)));
    assert_eq!(run("g 1", &mut scope), Err("function g can only be called with ()".to_string()));
    assert_eq!(run("g 1 2", &mut scope), Err("expected 0 arguments to function g".to_string()));
    assert_eq!(run("(g)", &mut scope), Ok(integer(7)));
    assert_eq!(run("= e { }", &mut scope).is_ok(), true);
    assert_eq!(run("e ()", &mut scope), Ok(null()));
}

#[test]
fn test_function_value() {
    let mut scope = Scope::new();
    let f = run("= f { [a] a; }", &mut scope).unwrap();
    assert_eq!(
        f,
        Value::Function(Function {
            params: vec![name("a")],
            body: vec![Statement::Expression(Expression::Identifier(name("a")))],
        })
    );
    assert_eq!(run("f", &mut scope), Ok(f));
}

#[test]
fn test_call_errors() {
    fails("f 1", "undefined function variable f");
    let mut scope = Scope::new();
    run("= n 1", &mut scope).unwrap();
    assert_eq!(run("n 1", &mut scope), Err("cannot call type integer as a function".to_string()));
    run("= s \"a\"", &mut scope).unwrap();
    assert_eq!(run("s ()", &mut scope), Err("cannot call type string as a function".to_string()));
    run("= f { [a] a; }", &mut scope).unwrap();
    assert_eq!(run("f y", &mut scope), Err("undefined variable y".to_string()));
}

#[test]
fn test_callee_sees_the_callers_bindings() {
    let mut scope = Scope::new();
    run("= x 10", &mut scope).unwrap();
    run("= g { x; }", &mut scope).unwrap();
    assert_eq!(run("g ()", &mut scope), Ok(integer(10)));
    run("= x 11", &mut scope).unwrap();
    assert_eq!(run("g ()", &mut scope), Ok(integer(11)));
}

#[test]
fn test_callee_sees_bindings_made_after_its_definition() {
    let mut scope = Scope::new();
    run("= g { later; }", &mut scope).unwrap();
    assert_eq!(run("g ()", &mut scope), Err("undefined variable later".to_string()));
    run("= later 3", &mut scope).unwrap();
    assert_eq!(run("g ()", &mut scope), Ok(integer(3)));
}

#[test]
fn test_callee_sees_its_callers_callers_bindings() {
    let mut scope = Scope::new();
    run("= inner { + a b; }", &mut scope).unwrap();
    run("= outer { [a] = b 2; inner (); }", &mut scope).unwrap();
    assert_eq!(run("outer 40", &mut scope), Ok(integer(42)));
}

#[test]
fn test_assignment_in_a_call_stays_in_the_call() {
    let mut scope = Scope::new();
    run("= x 1", &mut scope).unwrap();
    run("= f { = x 2; = y 3; x; }", &mut scope).unwrap();
    assert_eq!(run("f ()", &mut scope), Ok(integer(2)));
    assert_eq!(run("x", &mut scope), Ok(integer(1)));
    assert_eq!(run("y", &mut scope), Err("undefined variable y".to_string()));
}

#[test]
fn test_arguments_are_bound_one_by_one() {
    let mut scope = Scope::new();
    run("= f { [a b] + a b; }", &mut scope).unwrap();
    run("= a 100", &mut scope).unwrap();
    // The second argument is evaluated in the call's scope, where `a` is 1 already.
    assert_eq!(run("f 1 (+ a 1)", &mut scope), Ok(integer(3)));
}

#[test]
fn test_recursion() {
    let mut scope = Scope::new();
    run("= down { [n] if == n 0 { = r 0; } else { = r down (- n 1); }\nr; }", &mut scope).unwrap();
    assert_eq!(run("down 5", &mut scope), Ok(integer(0)));
}

#[test]
fn test_endless_recursion_fails() {
    let mut scope = Scope::new();
    run("= loop { loop (); }", &mut scope).unwrap();
    assert_eq!(run("loop ()", &mut scope), Err("maximum call depth exceeded".to_string()));
}

#[test]
fn test_call_depth() {
    let mut scope = Scope::new();
    run("= count { [n] if == n 1 { = r 1; } else { = r + 1 (count (- n 1)); }\nr; }", &mut scope)
        .unwrap();
    let deepest = CALL_DEPTH as i64;
    assert_eq!(run(&format!("count {}", deepest), &mut scope), Ok(integer(deepest)));
    assert_eq!(
        run(&format!("count {}", deepest + 1), &mut scope),
        Err("maximum call depth exceeded".to_string())
    );
}

#[test]
fn test_floats_go_to_the_unit() {
    gives("+ 1.5 2.25", float("3.75"));
    gives("- 1.5 0.5 0.5", float("0.5"));
    gives("* 1.5 2.0", float("3"));
    gives("/ 1.0 4.0", float("0.25"));
    gives("== 1.5 1.50", boolean(true));
    gives("== 1.5 2.5", boolean(false));
    gives("== 1.5 ()", boolean(false));
    fails("/ 1.0 0.0", "infinity division");
    fails("/ 0.0 0.0", "cannot divide 0.0 by 0.0");
    fails("/ 2.0 0.0 0.0", "cannot divide 0.0 by 0.0");
    gives("/ 2.0 0.0", float("inf"));
}

#[test]
fn test_float_type_errors() {
    fails("- 1.5 2", "cannot subtract type float with type integer");
    fails("* 1.5 \"a\"", "cannot multiply type float with type string");
    fails("/ 1.5 2", "cannot divide type float with type integer");
    fails("/ 1.5 ()", "cannot divide type float with type null");
    // The floats in front of the wrong operand are divided first.
    fails("/ 1.0 0.0 2", "infinity division");
    fails("/ 1.0 2.0 2", "cannot divide type float with type integer");
}

#[test]
fn test_zero_policy() {
    let message = |e: Option<Error>| e.map(|e| e.to_string());
    assert_eq!(message(zero_division(false, false, true, false)), Some("cannot divide 0 by 0".to_string()));
    assert_eq!(message(zero_division(false, true, false, false)), Some("cannot divide 0 by 0".to_string()));
    assert_eq!(message(zero_division(false, true, false, true)), Some("cannot divide 0 by 0".to_string()));
    assert_eq!(message(zero_division(false, false, false, true)), Some("infinity division".to_string()));
    assert_eq!(message(zero_division(false, false, false, false)), None);
    assert_eq!(message(zero_division(true, false, true, false)), Some("cannot divide 0.0 by 0.0".to_string()));
    assert_eq!(message(zero_division(true, true, false, false)), Some("cannot divide 0.0 by 0.0".to_string()));
    assert_eq!(message(zero_division(true, false, false, true)), Some("infinity division".to_string()));
    assert_eq!(message(zero_division(true, false, false, false)), None);
}

/// A unit that records what it is asked and answers with what it is told to.
struct Recorder {
    asked: std::cell::RefCell<Vec<String>>,
    zero: &'static str,
}

impl FloatUnit for Recorder {
    fn arithmetic(&self, kind: OperatorKind, left: &str, right: &str) -> Result<String, Error> {
        self.asked.borrow_mut().push(format!("{} {} {}", kind.to_string(), left, right));
        Ok(format!("({} {} {})", kind.to_string(), left, right))
    }

    fn equal(&self, left: &str, right: &str) -> Result<bool, Error> {
        self.asked.borrow_mut().push(format!("equal {} {}", left, right));
        Ok(left == right || (left == self.zero && right == "0.0"))
    }
}

fn asked(source: &str) -> (Result<Value, String>, Vec<String>) {
    let recorder = Recorder { asked: std::cell::RefCell::new(vec![]), zero: "z" };
    let r = interpret(source, &mut Scope::new(), &recorder).map_err(|e| e.to_string());
    let log = recorder.asked.borrow().clone();
    (r, log)
}

#[test]
fn test_what_the_unit_is_asked() {
    assert_eq!(
        asked("+ 1.5 2. 3.25"),
        (
            Ok(float("(add (add 1.5 2.) 3.25)")),
            vec!["add 1.5 2.".to_string(), "add (add 1.5 2.) 3.25".to_string()]
        )
    );
    assert_eq!(
        asked("- 1.5 2.5"),
        (Ok(float("(subtract 1.5 2.5)")), vec!["subtract 1.5 2.5".to_string()])
    );
    assert_eq!(
        asked("* 1.5 2.5"),
        (Ok(float("(multiply 1.5 2.5)")), vec!["multiply 1.5 2.5".to_string()])
    );
    assert_eq!(asked("== 1.5 () 2.5 3.5"), (Ok(boolean(false)), vec!["equal 1.5 3.5".to_string()]));
    assert_eq!(asked("== 1.5 2.5 1.5"), (Ok(boolean(true)), vec!["equal 1.5 1.5".to_string()]));
    // Nothing is asked where the types decide.
    assert_eq!(asked("== 1.5 2.5 ()"), (Ok(boolean(false)), vec![]));
    assert_eq!(
        asked("* 1.5 2.5 2"),
        (Err("cannot multiply type float with type integer".to_string()), vec![])
    );
    assert_eq!(
        asked("+ 1.5 \"a\" 2.5"),
        (Err("cannot add type float with type string".to_string()), vec![])
    );
    assert_eq!(
        asked("/ 1.5 2"),
        (Err("cannot divide type float with type integer".to_string()), vec![])
    );
}

#[test]
fn test_what_the_unit_is_asked_in_a_division() {
    assert_eq!(
        asked("/ 1.5 2.5 3 4.5"),
        (
            Err("cannot divide type float with type integer".to_string()),
            vec![
                "equal 1.5 0.0".to_string(),
                "equal 2.5 0.0".to_string(),
                "divide 1.5 2.5".to_string(),
            ]
        )
    );
    // A zero divisor: the running value is compared with zero and with one.
    assert_eq!(
        asked("/ 1.0 0.0"),
        (
            Err("infinity division".to_string()),
            vec![
                "equal 1.0 0.0".to_string(),
                "equal 0.0 0.0".to_string(),
                "equal 1.0 0.0".to_string(),
                "equal 1.0 1.0".to_string(),
            ]
        )
    );
    assert_eq!(
        asked("/ 2.5 0.0 0.0"),
        (
            Err("cannot divide 0.0 by 0.0".to_string()),
            vec![
                "equal 2.5 0.0".to_string(),
                "equal 0.0 0.0".to_string(),
                "equal 2.5 0.0".to_string(),
                "equal 2.5 1.0".to_string(),
                "divide 2.5 0.0".to_string(),
                "equal 0.0 0.0".to_string(),
                "equal (divide 2.5 0.0) 0.0".to_string(),
                "equal (divide 2.5 0.0) 1.0".to_string(),
            ]
        )
    );
}

#[test]
fn test_without_floats() {
    let mut scope = Scope::new();
    let r = interpret("+ 1.5 2.5", &mut scope, &NoFloats);
    assert_eq!(r.unwrap_err().to_string(), "float arithmetic is not available");
    let r = interpret("+ 1 2", &mut scope, &NoFloats);
    assert_eq!(r.unwrap(), integer(3));
    let r = interpret("1.5", &mut scope, &NoFloats);
    assert_eq!(r.unwrap(), float("1.5"));
}

#[test]
fn test_value_texts() {
    assert_eq!(integer(-12).value(), "-12");
    assert_eq!(integer(0).value(), "0");
    assert_eq!(integer(i64::MIN).value(), "-9223372036854775808");
    assert_eq!(integer(i64::MAX).value(), "9223372036854775807");
    assert_eq!(float("2.5").value(), "2.5");
    assert_eq!(string("a b").value(), "a b");
    assert_eq!(boolean(true).value(), "true");
    assert_eq!(boolean(false).value(), "false");
    assert_eq!(null().value(), "null");
    let f = Value::Function(Function { params: vec![], body: vec![] });
    assert_eq!(f.value(), "function");
    assert_eq!(integer(1).to_string(), "integer");
    assert_eq!(float("1.0").to_string(), "float");
    assert_eq!(string("").to_string(), "string");
    assert_eq!(boolean(true).to_string(), "boolean");
    assert_eq!(null().to_string(), "null");
    assert_eq!(f.to_string(), "function");
    assert_eq!(show(&integer(5)), "5 : integer");
    assert_eq!(show(&null()), "null : null");
    assert_eq!(show(&string("a b")), "a b : string");
    assert_eq!(show(&boolean(true)), "true : boolean");
}

#[test]
fn test_operator_names() {
    assert_eq!(OperatorKind::Equal.to_string(), "equal");
    assert_eq!(OperatorKind::Add.to_string(), "add");
    assert_eq!(OperatorKind::Subtract.to_string(), "subtract");
    assert_eq!(OperatorKind::Multiply.to_string(), "multiply");
    assert_eq!(OperatorKind::Divide.to_string(), "divide");
    assert_eq!(OperatorKind::Inverse.to_string(), "inverse");
}

#[test]
fn test_operators_on_values() {
    let ints = |ns: &[i64]| ns.iter().map(|n| Primitive::Integer(*n)).collect::<Vec<Primitive>>();
    assert_eq!(eval_operator_add(ints(&[1, 2, 3]), &NoFloats).unwrap(), integer(6));
    assert_eq!(eval_operator_subtract(ints(&[1, 2, 3]), &NoFloats).unwrap(), integer(-4));
    assert_eq!(eval_operator_multiply(ints(&[2, 3, 4]), &NoFloats).unwrap(), integer(24));
    assert_eq!(eval_operator_divide(ints(&[24, 3, 4]), &NoFloats).unwrap(), integer(2));
    assert_eq!(eval_operator_equal(ints(&[2, 2]), &NoFloats).unwrap(), boolean(true));
    assert_eq!(
        eval_operator_add(ints(&[1]), &NoFloats).unwrap_err().to_string(),
        "expected at least 2 arguments for add operator"
    );
    assert_eq!(
        eval_operator_equal(vec![], &NoFloats).unwrap_err().to_string(),
        "expected at least 2 arguments for equal operator"
    );
    assert_eq!(
        eval_operator_divide(ints(&[i64::MIN, -1]), &NoFloats).unwrap_err().to_string(),
        "attempt to divide with overflow"
    );
}

#[test]
fn test_syntax_trees_run_as_built() {
    let mut scope = Scope::new();
    let sum = Operator {
        kind: OperatorKind::Add,
        args: vec![
            Expression::Primitive(Primitive::Integer(2)),
            Expression::Identifier(name("x")),
        ],
    };
    scope.set(&name("x"), &integer(40));
    assert_eq!(eval_operator(&sum, &mut scope, &NoFloats).unwrap(), integer(42));
    let assign = Assign { name: name("y"), value: Expression::Operator(sum.clone()) };
    assert_eq!(Value::eval_assign(&assign, &mut scope, &NoFloats).unwrap(), integer(42));
    assert_eq!(scope.get(&name("y")), Some(&integer(42)));
    let branch = If {
        condition: Expression::Primitive(Primitive::Null),
        consequence: vec![],
        alternative: None,
    };
    assert_eq!(Value::eval_if_condition(&branch, &mut scope, &NoFloats).unwrap(), null());
    let program = Program {
        statements: vec![Statement::Assign(assign), Statement::If(branch)],
    };
    assert_eq!(eval(program, &mut scope, &NoFloats).unwrap(), null());
    assert_eq!(
        Value::eval_expr(&Expression::Identifier(name("y")), &mut scope, &NoFloats).unwrap(),
        integer(42)
    );
}

#[test]
fn test_scope() {
    let mut scope = Scope::default();
    assert_eq!(scope.get(&name("a")), None);
    scope.set(&name("a"), &integer(1));
    scope.set(&name("b"), &integer(2));
    scope.set(&name("a"), &integer(3));
    assert_eq!(scope.get(&name("a")), Some(&integer(3)));
    assert_eq!(scope.get(&name("b")), Some(&integer(2)));
    let mut inner = Scope::inside(&scope);
    assert_eq!(inner.get(&name("a")), Some(&integer(3)));
    inner.set(&name("a"), &integer(4));
    assert_eq!(inner.get(&name("a")), Some(&integer(4)));
    assert_eq!(scope.get(&name("a")), Some(&integer(3)));
    scope.set(&name("c"), &integer(5));
    assert_eq!(inner.get(&name("c")), None);
    assert_eq!(inner.nested(1), true);
    assert_eq!(inner.nested(2), false);
    assert_eq!(scope.nested(0), true);
    assert_eq!(scope.nested(1), false);
    let copy = inner.clone();
    assert_eq!(copy.get(&name("a")), Some(&integer(4)));
    assert_eq!(copy.get(&name("b")), Some(&integer(2)));
}

#[test]
fn test_run_of_tokens_made_by_hand() {
    let tokens = Lexer::new("+ 1 2").lex();
    let program = Parser::new(tokens).parse().unwrap();
    assert_eq!(eval(program, &mut Scope::new(), &NoFloats).unwrap(), integer(3));
}
