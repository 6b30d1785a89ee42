use clip::lexer::token::{Location, Token, TokenValue};
use clip::lexer::Lexer;

fn kinds(input: &str) -> Vec<TokenValue> {
    Lexer::new(input).lex().into_iter().map(|t| t.value).collect()
}

fn text(s: &str) -> String {
    s.to_string()
}

#[test]
fn test_empty_input() {
    assert_eq!(kinds(""), vec![TokenValue::EOF]);
}

#[test]
fn test_parentheses() {
    assert_eq!(
        kinds("(()()()())"),
        vec![
            TokenValue::LeftParen,
            TokenValue::LeftParen,
            TokenValue::RightParen,
            TokenValue::LeftParen,
            TokenValue::RightParen,
            TokenValue::LeftParen,
            TokenValue::RightParen,
            TokenValue::LeftParen,
            TokenValue::RightParen,
            TokenValue::RightParen,
            TokenValue::EOF
        ]
    );
}

#[test]
fn test_integers() {
    assert_eq!(kinds("123456"), vec![TokenValue::Integer(text("123456")), TokenValue::EOF]);
}

#[test]
fn test_floats() {
    assert_eq!(kinds("3.14159265"), vec![TokenValue::Float(text("3.14159265")), TokenValue::EOF]);
}

#[test]
fn test_strings() {
    assert_eq!(
        kinds("\"foo bar baz\""),
        vec![TokenValue::String(text("foo bar baz")), TokenValue::EOF]
    );
}

#[test]
fn test_multi_line_strings() {
    assert_eq!(
        kinds("\n\"\nfoo\nbar\nbaz\n\""),
        vec![
            TokenValue::Newline,
            TokenValue::String(text("\nfoo\nbar\nbaz\n")),
            TokenValue::EOF
        ]
    );
}

#[test]
fn test_boolean_true() {
    assert_eq!(kinds("true"), vec![TokenValue::True, TokenValue::EOF]);
}

#[test]
fn test_boolean_false() {
    assert_eq!(kinds("false"), vec![TokenValue::False, TokenValue::EOF]);
}

#[test]
fn test_identifiers() {
    assert_eq!(
        kinds("foo bar"),
        vec![TokenValue::Ident(text("foo")), TokenValue::Ident(text("bar")), TokenValue::EOF]
    );
}

#[test]
fn test_assignment() {
    assert_eq!(
        kinds("= foo 123"),
        vec![
            TokenValue::Assign,
            TokenValue::Ident(text("foo")),
            TokenValue::Integer(text("123")),
            TokenValue::EOF
        ]
    );
}

#[test]
fn test_operators() {
    assert_eq!(
        kinds("===+-*/!"),
        vec![
            TokenValue::Equal,
            TokenValue::Assign,
            TokenValue::Plus,
            TokenValue::Minus,
            TokenValue::Asterisk,
            TokenValue::Slash,
            TokenValue::Bang,
            TokenValue::EOF
        ]
    );
}

#[test]
fn test_keywords() {
    assert_eq!(
        kinds("if elif else iff"),
        vec![
            TokenValue::If,
            TokenValue::Elif,
            TokenValue::Else,
            TokenValue::Ident(text("iff")),
            TokenValue::EOF
        ]
    );
}

#[test]
fn test_structural_tokens() {
    assert_eq!(
        kinds("[]{};"),
        vec![
            TokenValue::LeftBracket,
            TokenValue::RightBracket,
            TokenValue::BlockStart,
            TokenValue::BlockEnd,
            TokenValue::Semicolon,
            TokenValue::EOF
        ]
    );
}

#[test]
fn test_spaces_and_tabs_are_skipped() {
    assert_eq!(kinds(" \t \t"), vec![TokenValue::EOF]);
}

#[test]
fn test_newlines() {
    assert_eq!(
        kinds("a\nb\r\nc"),
        vec![
            TokenValue::Ident(text("a")),
            TokenValue::Newline,
            TokenValue::Ident(text("b")),
            TokenValue::Newline,
            TokenValue::Ident(text("c")),
            TokenValue::EOF
        ]
    );
}

#[test]
fn test_lone_carriage_return_is_skipped() {
    assert_eq!(
        kinds("a\rb"),
        vec![TokenValue::Ident(text("a")), TokenValue::Ident(text("b")), TokenValue::EOF]
    );
}

#[test]
fn test_comment_runs_to_the_end_of_the_line() {
    assert_eq!(
        kinds("1 # one\n2"),
        vec![TokenValue::Integer(text("1")), TokenValue::Integer(text("2")), TokenValue::EOF]
    );
}

#[test]
fn test_comment_at_the_end_of_the_input() {
    assert_eq!(
        kinds("1 # one"),
        vec![TokenValue::Integer(text("1")), TokenValue::EOF, TokenValue::EOF]
    );
}

#[test]
fn test_logic_tokens() {
    assert_eq!(kinds("&& ||"), vec![TokenValue::And, TokenValue::Or, TokenValue::EOF]);
}

#[test]
fn test_lone_ampersand_and_bar_are_illegal() {
    assert_eq!(
        kinds("& |"),
        vec![
            TokenValue::Illegal(text("unexpected: &")),
            TokenValue::Illegal(text("unexpected: |")),
            TokenValue::EOF
        ]
    );
    assert_eq!(
        kinds("&"),
        vec![TokenValue::Illegal(text("unexpected: &")), TokenValue::EOF]
    );
}

#[test]
fn test_unknown_character_is_illegal_and_consumed() {
    assert_eq!(
        kinds("a ? b"),
        vec![
            TokenValue::Ident(text("a")),
            TokenValue::Illegal(text("unexpected: ?")),
            TokenValue::Ident(text("b")),
            TokenValue::EOF
        ]
    );
}

#[test]
fn test_underscores_in_numbers_are_skipped() {
    assert_eq!(kinds("1_000_000"), vec![TokenValue::Integer(text("1000000")), TokenValue::EOF]);
    assert_eq!(kinds("1_0.5_0"), vec![TokenValue::Float(text("10.50")), TokenValue::EOF]);
}

#[test]
fn test_trailing_decimal_point() {
    assert_eq!(kinds("1."), vec![TokenValue::Float(text("1.")), TokenValue::EOF]);
}

#[test]
fn test_second_decimal_point_is_illegal() {
    assert_eq!(
        kinds("1.2.3"),
        vec![
            TokenValue::Illegal(text("unexpected: .")),
            TokenValue::Integer(text("3")),
            TokenValue::EOF
        ]
    );
}

#[test]
fn test_digits_end_an_identifier() {
    assert_eq!(
        kinds("ab12"),
        vec![TokenValue::Ident(text("ab")), TokenValue::Integer(text("12")), TokenValue::EOF]
    );
}

#[test]
fn test_identifier_with_underscore() {
    assert_eq!(kinds("_a_b"), vec![TokenValue::Ident(text("_a_b")), TokenValue::EOF]);
}

#[test]
fn test_escaped_quote_stays_in_the_string() {
    assert_eq!(
        kinds("\"a\\\"b\""),
        vec![TokenValue::String(text("a\\\"b")), TokenValue::EOF]
    );
}

#[test]
fn test_two_backslashes_do_not_escape() {
    assert_eq!(
        kinds("\"a\\\\\" b"),
        vec![TokenValue::String(text("a\\\\")), TokenValue::Ident(text("b")), TokenValue::EOF]
    );
}

#[test]
fn test_unterminated_string_is_illegal() {
    assert_eq!(
        kinds("\"abc"),
        vec![TokenValue::Illegal(text("unterminated quote string")), TokenValue::EOF]
    );
}

#[test]
fn test_empty_string() {
    assert_eq!(kinds("\"\""), vec![TokenValue::String(text("")), TokenValue::EOF]);
}

#[test]
fn test_line_counter_advances_at_each_line_break() {
    let tokens: Vec<Token> = Lexer::new("a\nb\n").lex();
    let stops: Vec<i32> = tokens.iter().map(|t| t.loc.line_stop).collect();
    assert_eq!(stops, vec![0, 0, 1, 1, 2]);
    assert_eq!(tokens[0].loc, Location { line_start: 0, line_stop: 0, col_start: 0, col_stop: 0 });
    assert_eq!(tokens[4].loc, Location { line_start: 0, line_stop: 2, col_start: 0, col_stop: 0 });
}

#[test]
fn test_second_lex_gives_end_of_input_alone() {
    let mut lexer = Lexer::new("a b");
    assert_eq!(lexer.lex().len(), 3);
    let again: Vec<TokenValue> = lexer.lex().into_iter().map(|t| t.value).collect();
    assert_eq!(again, vec![TokenValue::EOF]);
}

#[test]
fn test_location_new_and_stop() {
    let start = Location::new(3, 4);
    assert_eq!(start, Location { line_start: 3, line_stop: 0, col_start: 4, col_stop: 0 });
    assert_eq!(
        start.stop(5, 6),
        Location { line_start: 3, line_stop: 5, col_start: 4, col_stop: 6 }
    );
}

#[test]
fn test_token_texts() {
    assert_eq!(TokenValue::EOF.to_string(), "eof");
    assert_eq!(TokenValue::BlockStart.to_string(), "block start");
    assert_eq!(TokenValue::Integer(text("12")).to_string(), "integer: 12");
    assert_eq!(TokenValue::Float(text("1.5")).to_string(), "float: 1.5");
    assert_eq!(TokenValue::String(text("hi")).to_string(), "string: hi");
    assert_eq!(TokenValue::True.to_string(), "boolean: true");
    assert_eq!(TokenValue::Ident(text("x")).to_string(), "ident: x");
    assert_eq!(TokenValue::Illegal(text("unexpected: ?")).to_string(), "illegal: unexpected: ?");
    let token = Token::new(TokenValue::Plus, Location::new(1, 2).stop(-3, 40));
    assert_eq!(token.to_string(), "Token(plus, 1:-3, 2:40)");
    assert_eq!(Location::new(0, 0).to_string(), "0:0, 0:0");
    assert_eq!(
        Location::new(i32::MIN, i32::MAX).to_string(),
        "-2147483648:0, 2147483647:0"
    );
}

#[test]
fn test_token_clone_keeps_kind_and_span() {
    let token = Token::new(TokenValue::Ident(text("abc")), Location::new(1, 2));
    let copy = token.clone();
    assert_eq!(copy.value, TokenValue::Ident(text("abc")));
    assert_eq!(copy.loc, token.loc);
}
