use clip::lexer::token::{Location, Token, TokenValue};
use clip::lexer::Lexer;
use clip::parser::ast::{
    And, Assign, Call, Expression, Function, Identifier, If, Operator, OperatorKind, Or, Primitive,
    Program, Statement,
};
use clip::parser::{Parse, Parser};

fn parse(source: &str) -> Result<Vec<Statement>, String> {
    match Parser::new(Lexer::new(source).lex()).parse() {
        Ok(program) => Ok(program.statements),
        Err(e) => Err(e.to_string()),
    }
}

fn name(s: &str) -> Identifier {
    Identifier { value: s.to_string() }
}

fn var(s: &str) -> Expression {
    Expression::Identifier(name(s))
}

fn num(n: i64) -> Expression {
    Expression::Primitive(Primitive::Integer(n))
}

fn op(kind: OperatorKind, args: Vec<Expression>) -> Expression {
    Expression::Operator(Operator { kind, args })
}

fn bare(kinds: Vec<TokenValue>) -> Vec<Token> {
    kinds.into_iter().map(|k| Token::new(k, Location::new(0, 0))).collect()
}

#[test]
fn test_empty_program() {
    assert_eq!(parse(""), Ok(vec![]));
    assert_eq!(parse("\n;\n"), Ok(vec![]));
}

#[test]
fn test_primitives() {
    assert_eq!(parse("42"), Ok(vec![Statement::Expression(num(42))]));
    assert_eq!(
        parse("1.5"),
        Ok(vec![Statement::Expression(Expression::Primitive(Primitive::Float("1.5".to_string())))])
    );
    assert_eq!(
        parse("\"hi\""),
        Ok(vec![Statement::Expression(Expression::Primitive(Primitive::String("hi".to_string())))])
    );
    assert_eq!(
        parse("true"),
        Ok(vec![Statement::Expression(Expression::Primitive(Primitive::Boolean(true)))])
    );
    assert_eq!(
        parse("false"),
        Ok(vec![Statement::Expression(Expression::Primitive(Primitive::Boolean(false)))])
    );
}

#[test]
fn test_empty_parentheses_are_null() {
    assert_eq!(parse("()"), Ok(vec![Statement::Expression(Expression::Primitive(Primitive::Null))]));
}

#[test]
fn test_parenthesised_expression() {
    assert_eq!(
        parse("(+ 1 2)"),
        Ok(vec![Statement::Expression(op(OperatorKind::Add, vec![num(1), num(2)]))])
    );
    assert_eq!(parse("(1"), Err("expected right paren; got eof".to_string()));
}

#[test]
fn test_largest_and_too_large_integer() {
    assert_eq!(
        parse("9223372036854775807"),
        Ok(vec![Statement::Expression(num(i64::MAX))])
    );
    assert_eq!(
        parse("9223372036854775808"),
        Err("number too large to fit in target type".to_string())
    );
}

#[test]
fn test_integer_with_underscores() {
    assert_eq!(parse("1_000"), Ok(vec![Statement::Expression(num(1000))]));
}

#[test]
fn test_integer_token_that_is_no_number() {
    let mut parser = Parser::new(bare(vec![TokenValue::Integer("1x".to_string()), TokenValue::EOF]));
    assert_eq!(parser.parse().unwrap_err().to_string(), "invalid digit found in string");
    let mut parser = Parser::new(bare(vec![TokenValue::Integer("-7".to_string())]));
    assert_eq!(
        parser.parse().unwrap().statements,
        vec![Statement::Expression(num(-7))]
    );
}

#[test]
fn test_variable_reference() {
    assert_eq!(parse("x"), Ok(vec![Statement::Expression(var("x"))]));
    assert_eq!(parse("x;"), Ok(vec![Statement::Expression(var("x"))]));
    assert_eq!(parse("x\n"), Ok(vec![Statement::Expression(var("x"))]));
}

#[test]
fn test_call() {
    assert_eq!(
        parse("f 2 3"),
        Ok(vec![Statement::Expression(Expression::Call(Call {
            name: name("f"),
            args: vec![num(2), num(3)],
        }))])
    );
    assert_eq!(
        parse("f ()"),
        Ok(vec![Statement::Expression(Expression::Call(Call {
            name: name("f"),
            args: vec![Expression::Primitive(Primitive::Null)],
        }))])
    );
}

#[test]
fn test_call_operand_that_fails_fails_the_call() {
    assert_eq!(parse("f }"), Err("unexpected token block end".to_string()));
}

#[test]
fn test_assign() {
    assert_eq!(
        parse("= x 1"),
        Ok(vec![Statement::Assign(Assign { name: name("x"), value: num(1) })])
    );
    assert_eq!(
        parse("= x 1; = y 2\n= z 3"),
        Ok(vec![
            Statement::Assign(Assign { name: name("x"), value: num(1) }),
            Statement::Assign(Assign { name: name("y"), value: num(2) }),
            Statement::Assign(Assign { name: name("z"), value: num(3) }),
        ])
    );
}

#[test]
fn test_assign_must_be_followed_by_a_separator() {
    assert_eq!(parse("= x 1 2"), Err("unexpected token integer: 2".to_string()));
    assert_eq!(parse("= 1 2"), Err("unexpected token integer: 1".to_string()));
    assert_eq!(parse("="), Err("unexpected token eof".to_string()));
    assert_eq!(parse("= x"), Err("unexpected token eof".to_string()));
}

#[test]
fn test_operator_collects_operands() {
    assert_eq!(
        parse("+ 1 x \"a\""),
        Ok(vec![Statement::Expression(op(
            OperatorKind::Add,
            vec![num(1), var("x"), Expression::Primitive(Primitive::String("a".to_string()))]
        ))])
    );
    assert_eq!(parse("!"), Ok(vec![Statement::Expression(op(OperatorKind::Inverse, vec![]))]));
    assert_eq!(
        parse("== 1 1"),
        Ok(vec![Statement::Expression(op(OperatorKind::Equal, vec![num(1), num(1)]))])
    );
    assert_eq!(
        parse("- 1 2"),
        Ok(vec![Statement::Expression(op(OperatorKind::Subtract, vec![num(1), num(2)]))])
    );
    assert_eq!(
        parse("* 1 2"),
        Ok(vec![Statement::Expression(op(OperatorKind::Multiply, vec![num(1), num(2)]))])
    );
    assert_eq!(
        parse("/ 1 2"),
        Ok(vec![Statement::Expression(op(OperatorKind::Divide, vec![num(1), num(2)]))])
    );
}

#[test]
fn test_operator_operand_names_are_variables() {
    assert_eq!(
        parse("+ f 1"),
        Ok(vec![Statement::Expression(op(OperatorKind::Add, vec![var("f"), num(1)]))])
    );
}

#[test]
fn test_operator_keeps_operands_read_before_a_failure() {
    // The closing bracket cannot start an operand: the operands end there, the
    // token is passed over, and what follows is the operand of no one.
    assert_eq!(
        parse("+ 1 2 ] 3"),
        Ok(vec![
            Statement::Expression(op(OperatorKind::Add, vec![num(1), num(2)])),
            Statement::Expression(num(3)),
        ])
    );
}

#[test]
fn test_nested_operators() {
    assert_eq!(
        parse("+ 1 (* 2 3)"),
        Ok(vec![Statement::Expression(op(
            OperatorKind::Add,
            vec![num(1), op(OperatorKind::Multiply, vec![num(2), num(3)])]
        ))])
    );
    assert_eq!(
        parse("+ 1 * 2 3"),
        Ok(vec![Statement::Expression(op(
            OperatorKind::Add,
            vec![num(1), op(OperatorKind::Multiply, vec![num(2), num(3)])]
        ))])
    );
}

#[test]
fn test_logic() {
    assert_eq!(
        parse("&& true x"),
        Ok(vec![Statement::Expression(Expression::And(And(vec![
            Expression::Primitive(Primitive::Boolean(true)),
            var("x"),
        ])))])
    );
    assert_eq!(
        parse("|| false (f 1)"),
        Ok(vec![Statement::Expression(Expression::Or(Or(vec![
            Expression::Primitive(Primitive::Boolean(false)),
            Expression::Call(Call { name: name("f"), args: vec![num(1)] }),
        ])))])
    );
    assert_eq!(parse("&& }"), Err("unexpected token block end".to_string()));
}

#[test]
fn test_function_literal() {
    assert_eq!(
        parse("= f { [a b] + a b }"),
        Ok(vec![Statement::Assign(Assign {
            name: name("f"),
            value: Expression::Function(Function {
                params: vec![name("a"), name("b")],
                body: vec![Statement::Expression(op(OperatorKind::Add, vec![var("a"), var("b")]))],
            }),
        })])
    );
    assert_eq!(
        parse("{ }"),
        Ok(vec![Statement::Expression(Expression::Function(Function {
            params: vec![],
            body: vec![],
        }))])
    );
    assert_eq!(
        parse("{ [] 1; 2\n}"),
        Ok(vec![Statement::Expression(Expression::Function(Function {
            params: vec![],
            body: vec![Statement::Expression(num(1)), Statement::Expression(num(2))],
        }))])
    );
}

#[test]
fn test_function_literal_errors() {
    assert_eq!(parse("{"), Err("unexpected end of file".to_string()));
    assert_eq!(parse("{ ["), Err("unexpected end of file".to_string()));
    assert_eq!(parse("{ [a"), Err("unexpected end of file".to_string()));
    assert_eq!(parse("{ [a 1]"), Err("unexpected token integer: 1".to_string()));
    assert_eq!(parse("{ 1;"), Err("unexpected end of file".to_string()));
    // A name in front of the closing brace is read as a call.
    assert_eq!(parse("{ x }"), Err("unexpected token block end".to_string()));
}

#[test]
fn test_if_with_else() {
    assert_eq!(
        parse("if true { = x 1; } else { = x 2; }"),
        Ok(vec![Statement::If(If {
            condition: Expression::Primitive(Primitive::Boolean(true)),
            consequence: vec![Box::new(Statement::Assign(Assign {
                name: name("x"),
                value: num(1)
            }))],
            alternative: Some(vec![Box::new(Statement::Assign(Assign {
                name: name("x"),
                value: num(2)
            }))]),
        })])
    );
}

#[test]
fn test_if_followed_by_a_statement() {
    let parsed = parse("if == c 1 { 1 } else { 2 }\nx").unwrap();
    assert_eq!(parsed.len(), 2);
    assert_eq!(parsed[1], Statement::Expression(var("x")));
}

#[test]
fn test_if_without_else_parses() {
    let lone = Statement::If(If {
        condition: Expression::Primitive(Primitive::Boolean(true)),
        consequence: vec![Box::new(Statement::Expression(num(1)))],
        alternative: None,
    });
    assert_eq!(parse("if true { 1 }"), Ok(vec![lone.clone()]));
    assert_eq!(parse("if true { 1 }\n"), Ok(vec![lone.clone()]));
    assert_eq!(
        parse("if true { 1 }\nx"),
        Ok(vec![lone.clone(), Statement::Expression(var("x"))])
    );
    assert_eq!(
        parse("if true { 1 }; if true { 1 }"),
        Ok(vec![lone.clone(), lone.clone()])
    );
    // Nothing behind the block is consumed: a stray brace is still a stray brace.
    assert_eq!(parse("if true { 1 } }"), Err("unexpected token block end".to_string()));
}

#[test]
fn test_else_stands_right_behind_the_block() {
    assert_eq!(parse("if true { 1 }\nelse { 2 }"), Err("unexpected token else".to_string()));
}

#[test]
fn test_nested_if() {
    let inner = Statement::If(If {
        condition: Expression::Primitive(Primitive::Boolean(false)),
        consequence: vec![Box::new(Statement::Expression(num(1)))],
        alternative: Some(vec![Box::new(Statement::Expression(num(2)))]),
    });
    assert_eq!(
        parse("if true { if false { 1 } else { 2 } }"),
        Ok(vec![Statement::If(If {
            condition: Expression::Primitive(Primitive::Boolean(true)),
            consequence: vec![Box::new(inner.clone())],
            alternative: None,
        })])
    );
    assert_eq!(
        parse("if true { 0 } else { if false { 1 } else { 2 }; 3 }"),
        Ok(vec![Statement::If(If {
            condition: Expression::Primitive(Primitive::Boolean(true)),
            consequence: vec![Box::new(Statement::Expression(num(0)))],
            alternative: Some(vec![Box::new(inner), Box::new(Statement::Expression(num(3)))]),
        })])
    );
}

#[test]
fn test_function_literal_ends_on_its_brace() {
    let f = Expression::Function(Function {
        params: vec![],
        body: vec![Statement::Expression(num(1))],
    });
    assert_eq!(
        parse("= f { 1 }\nf"),
        Ok(vec![
            Statement::Assign(Assign { name: name("f"), value: f.clone() }),
            Statement::Expression(var("f")),
        ])
    );
    assert_eq!(parse("({ 1 })"), Ok(vec![Statement::Expression(f.clone())]));
    assert_eq!(
        parse("{ { 1 }; 2 }"),
        Ok(vec![Statement::Expression(Expression::Function(Function {
            params: vec![],
            body: vec![Statement::Expression(f.clone()), Statement::Expression(num(2))],
        }))])
    );
    assert_eq!(
        parse("{ if true { 1 }; + 1 2 }"),
        Ok(vec![Statement::Expression(Expression::Function(Function {
            params: vec![],
            body: vec![
                Statement::If(If {
                    condition: Expression::Primitive(Primitive::Boolean(true)),
                    consequence: vec![Box::new(Statement::Expression(num(1)))],
                    alternative: None,
                }),
                Statement::Expression(op(OperatorKind::Add, vec![num(1), num(2)])),
            ],
        }))])
    );
}

#[test]
fn test_operands_end_at_a_closing_brace() {
    assert_eq!(
        parse("if true { + 1 2 } else { && true }"),
        Ok(vec![Statement::If(If {
            condition: Expression::Primitive(Primitive::Boolean(true)),
            consequence: vec![Box::new(Statement::Expression(op(
                OperatorKind::Add,
                vec![num(1), num(2)]
            )))],
            alternative: Some(vec![Box::new(Statement::Expression(Expression::And(And(vec![
                Expression::Primitive(Primitive::Boolean(true))
            ]))))]),
        })])
    );
}

#[test]
fn test_if_errors() {
    assert_eq!(parse("if"), Err("unexpected token eof".to_string()));
    assert_eq!(parse("if true 1"), Err("expected block start; got integer: 1".to_string()));
    assert_eq!(parse("if true {"), Err("unexpected end of file".to_string()));
    assert_eq!(
        parse("if true { 1 } else 2"),
        Err("expected block start; got integer: 2".to_string())
    );
    assert_eq!(parse("if true { 1 } else { 2"), Err("unexpected end of file".to_string()));
    // An assignment in a block needs its separator too.
    assert_eq!(parse("if true { = x 1 } else { = x 2 }"), Err("unexpected token block end".to_string()));
}

#[test]
fn test_name_in_front_of_a_brace_is_a_call() {
    assert_eq!(
        parse("c { 1 }"),
        Ok(vec![Statement::Expression(Expression::Call(Call {
            name: name("c"),
            args: vec![Expression::Function(Function {
                params: vec![],
                body: vec![Statement::Expression(num(1))],
            })],
        }))])
    );
    assert_eq!(
        parse("(c)"),
        Ok(vec![Statement::Expression(Expression::Call(Call { name: name("c"), args: vec![] }))])
    );
}

#[test]
fn test_elif_is_no_statement() {
    assert_eq!(parse("elif"), Err("unexpected token elif".to_string()));
    assert_eq!(
        parse("if true { 1 } elif b { 2 }"),
        Err("unexpected token elif".to_string())
    );
}

#[test]
fn test_unexpected_tokens() {
    assert_eq!(parse(")"), Err("unexpected token right paren".to_string()));
    assert_eq!(parse("?"), Err("unexpected token illegal: unexpected: ?".to_string()));
    assert_eq!(parse("else"), Err("unexpected token else".to_string()));
}

#[test]
fn test_one_token_is_passed_over_behind_a_statement() {
    assert_eq!(
        parse("1 2"),
        Ok(vec![Statement::Expression(num(1)), Statement::Expression(num(2))])
    );
}

#[test]
fn test_cursor() {
    let tokens = Lexer::new("a b").lex();
    let mut parser = Parser::new(tokens);
    assert_eq!(parser.current_token().value, TokenValue::Ident("a".to_string()));
    assert_eq!(parser.peek_token().unwrap().value, TokenValue::Ident("b".to_string()));
    assert_eq!(parser.next_token().value, TokenValue::Ident("b".to_string()));
    assert_eq!(parser.current_token().value, TokenValue::Ident("b".to_string()));
    assert_eq!(parser.peek_token().unwrap().value, TokenValue::EOF);
    assert_eq!(parser.next_token().value, TokenValue::EOF);
    assert_eq!(parser.peek_token().unwrap().value, TokenValue::EOF);
    assert_eq!(parser.next_token().value, TokenValue::EOF);
    assert_eq!(parser.next_token().value, TokenValue::EOF);
    assert_eq!(parser.current_token().value, TokenValue::EOF);
}

#[test]
fn test_cursor_over_no_tokens() {
    let mut parser = Parser::new(vec![]);
    assert!(parser.peek_token().is_none());
    assert_eq!(parser.current_token().value, TokenValue::EOF);
    assert_eq!(parser.next_token().value, TokenValue::EOF);
    assert_eq!(parser.parse().unwrap().statements, vec![]);
}

#[test]
fn test_tokens_without_end_of_input() {
    let mut parser = Parser::new(bare(vec![
        TokenValue::Plus,
        TokenValue::Integer("1".to_string()),
        TokenValue::Integer("2".to_string()),
    ]));
    assert_eq!(
        parser.parse().unwrap().statements,
        vec![Statement::Expression(op(OperatorKind::Add, vec![num(1), num(2)]))]
    );
}

#[test]
fn test_parse_trait() {
    let mut parser = Parser::new(Lexer::new("f 1").lex());
    let e = <Expression as Parse>::parse(&mut parser).unwrap();
    assert_eq!(e, Expression::Call(Call { name: name("f"), args: vec![num(1)] }));
    let mut parser = Parser::new(Lexer::new("f 1").lex());
    let e = Expression::parse_non_call(&mut parser).unwrap();
    assert_eq!(e, var("f"));
    let mut parser = Parser::new(Lexer::new("= a 1").lex());
    let p = <Program as Parse>::parse(&mut parser).unwrap();
    assert_eq!(p.statements.len(), 1);
}

#[test]
fn test_syntax_trees_can_be_copied() {
    let parsed = parse("= f { [a] if == a 0 { + a 1; } else { f (- a 1); } }").unwrap();
    let copy: Vec<Statement> = parsed.iter().map(|s| s.clone()).collect();
    assert_eq!(copy, parsed);
}
