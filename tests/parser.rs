use monotronian::token::Cursor;
use monotronian::{
    parse, parse_expression, Block, Error, Expression, Identifier, Infix, Literal, Parser, Prefix,
    Statement, Token,
};

fn dec(v: i64) -> Token {
    Token::DecimalIntLiteral(v)
}

fn ident(s: &str) -> Token {
    Token::Identifier(s.to_string())
}

fn lit(v: i64) -> Box<Expression> {
    Box::new(Expression::Literal(Literal::DecimalInt(v)))
}

fn name(s: &str) -> Identifier {
    Identifier(s.to_string())
}

fn expr_statement(e: Expression) -> Block {
    Block(vec![Statement::Expression(e)])
}

#[test]
fn make_parser() {
    let mut _p = Parser::new();
}

#[test]
fn precedence_of_multiplication_over_addition() {
    let r = parse_expression(vec![dec(1), Token::Plus, dec(2), Token::Star, dec(3)]);
    let expected = Expression::Infix(
        Infix::Add,
        lit(1),
        Box::new(Expression::Infix(Infix::Multiply, lit(2), lit(3))),
    );
    assert_eq!(r.unwrap(), expected);
}

#[test]
fn subtraction_is_left_associative() {
    let r = parse_expression(vec![dec(1), Token::Minus, dec(2), Token::Minus, dec(3)]);
    let expected = Expression::Infix(
        Infix::Subtract,
        Box::new(Expression::Infix(Infix::Subtract, lit(1), lit(2))),
        lit(3),
    );
    assert_eq!(r.unwrap(), expected);
}

#[test]
fn postfix_forms_chain_left_to_right() {
    let tokens = vec![
        ident("a"),
        Token::LeftBracket,
        dec(0),
        Token::RightBracket,
        Token::LeftParen,
        dec(1),
        Token::RightParen,
    ];
    let expected = Expression::FunctionCall(
        Box::new(Expression::Index(Box::new(Expression::Identifier(name("a"))), lit(0))),
        vec![Expression::Literal(Literal::DecimalInt(1))],
    );
    assert_eq!(parse_expression(tokens).unwrap(), expected);
}

#[test]
fn if_with_empty_block_and_no_else() {
    let tokens = vec![
        Token::If,
        Token::LeftParen,
        Token::True,
        Token::RightParen,
        Token::LeftBrace,
        Token::RightBrace,
        Token::Semicolon,
        Token::EndOfInput,
    ];
    let expected = expr_statement(Expression::IfExpr(
        Box::new(Expression::Literal(Literal::Bool(true))),
        Block(vec![]),
        None,
    ));
    assert_eq!(parse(tokens).unwrap(), expected);
}

#[test]
fn if_with_else_block() {
    let tokens = vec![
        Token::If,
        Token::LeftParen,
        ident("x"),
        Token::RightParen,
        Token::LeftBrace,
        Token::Return,
        dec(1),
        Token::Semicolon,
        Token::RightBrace,
        Token::Else,
        Token::LeftBrace,
        Token::Return,
        Token::Semicolon,
        Token::RightBrace,
    ];
    let expected = Expression::IfExpr(
        Box::new(Expression::Identifier(name("x"))),
        Block(vec![Statement::Return(Some(Expression::Literal(Literal::DecimalInt(1))))]),
        Some(Block(vec![Statement::Return(None)])),
    );
    assert_eq!(parse_expression(tokens).unwrap(), expected);
}

fn for_tokens(step: Option<i64>) -> Vec<Token> {
    let mut t = vec![Token::For, ident("i"), Token::In, dec(0), Token::To, dec(10)];
    if let Some(s) = step {
        t.push(Token::Step);
        t.push(dec(s));
    }
    t.push(Token::LeftBrace);
    t.push(Token::RightBrace);
    t
}

#[test]
fn for_without_step() {
    let expected = Expression::For(name("i"), lit(0), lit(10), None, Box::new(Block(vec![])));
    assert_eq!(parse_expression(for_tokens(None)).unwrap(), expected);
}

#[test]
fn for_with_step() {
    let expected =
        Expression::For(name("i"), lit(0), lit(10), Some(lit(2)), Box::new(Block(vec![])));
    assert_eq!(parse_expression(for_tokens(Some(2))).unwrap(), expected);
}

#[test]
fn trailing_comma_in_array_is_rejected() {
    let tokens = vec![
        Token::LeftBracket,
        dec(1),
        Token::Comma,
        dec(2),
        Token::Comma,
        Token::RightBracket,
    ];
    assert_eq!(parse_expression(tokens).unwrap_err(), Error::UnexpectedToken);
}

#[test]
fn let_without_semicolon_is_missing_terminator() {
    let tokens = vec![Token::Let, ident("x"), Token::Assign, dec(1), Token::EndOfInput];
    assert_eq!(parse(tokens).unwrap_err(), Error::MissingTerminator);
}

#[test]
fn let_statement() {
    let tokens = vec![Token::Let, ident("x"), Token::Assign, dec(1), Token::Semicolon];
    let expected = Block(vec![Statement::Let(name("x"), Expression::Literal(Literal::DecimalInt(1)))]);
    assert_eq!(parse(tokens).unwrap(), expected);
}

#[test]
fn empty_program_is_empty_block() {
    assert_eq!(parse(vec![]).unwrap(), Block(vec![]));
    assert_eq!(parse(vec![Token::EndOfInput]).unwrap(), Block(vec![]));
}

#[test]
fn parsing_twice_gives_the_same_tree() {
    let tokens = vec![
        Token::Let, ident("y"), Token::Assign, Token::Minus, ident("a"), Token::Star, dec(4),
        Token::Semicolon, ident("f"), Token::LeftParen, ident("y"), Token::Comma, dec(2),
        Token::RightParen, Token::Semicolon,
    ];
    let first = parse(tokens.clone()).unwrap();
    let second = parse(tokens).unwrap();
    assert_eq!(first, second);
}

#[test]
fn prefix_binds_tighter_than_infix_but_looser_than_postfix() {
    let tokens = vec![Token::Minus, ident("a"), Token::LeftBracket, dec(0), Token::RightBracket, Token::Plus, dec(2)];
    let expected = Expression::Infix(
        Infix::Add,
        Box::new(Expression::Prefix(
            Prefix::Negate,
            Box::new(Expression::Index(Box::new(Expression::Identifier(name("a"))), lit(0))),
        )),
        lit(2),
    );
    assert_eq!(parse_expression(tokens).unwrap(), expected);
}

#[test]
fn comparison_binds_looser_than_addition_and_equality_loosest() {
    let tokens = vec![dec(1), Token::Plus, dec(2), Token::Less, dec(3), Token::Equal, Token::Bang, Token::False];
    let expected = Expression::Infix(
        Infix::Equal,
        Box::new(Expression::Infix(
            Infix::LessThan,
            Box::new(Expression::Infix(Infix::Add, lit(1), lit(2))),
            lit(3),
        )),
        Box::new(Expression::Prefix(Prefix::Bitflip, Box::new(Expression::Literal(Literal::Bool(false))))),
    );
    assert_eq!(parse_expression(tokens).unwrap(), expected);
}

#[test]
fn parentheses_group() {
    let tokens = vec![Token::LeftParen, dec(1), Token::Plus, dec(2), Token::RightParen, Token::Slash, dec(3)];
    let expected = Expression::Infix(
        Infix::Divide,
        Box::new(Expression::Infix(Infix::Add, lit(1), lit(2))),
        lit(3),
    );
    assert_eq!(parse_expression(tokens).unwrap(), expected);
}

#[test]
fn hash_literal_keeps_pair_order_and_duplicates() {
    let tokens = vec![
        Token::LeftBrace,
        Token::StringLiteral("k".to_string()),
        Token::Colon,
        dec(1),
        Token::Comma,
        Token::HexIntLiteral(10),
        Token::Colon,
        ident("v"),
        Token::Comma,
        Token::StringLiteral("k".to_string()),
        Token::Colon,
        dec(3),
        Token::RightBrace,
    ];
    let expected = Expression::Hash(vec![
        (Literal::String("k".to_string()), Expression::Literal(Literal::DecimalInt(1))),
        (Literal::HexInt(10), Expression::Identifier(name("v"))),
        (Literal::String("k".to_string()), Expression::Literal(Literal::DecimalInt(3))),
    ]);
    assert_eq!(parse_expression(tokens).unwrap(), expected);
}

#[test]
fn empty_array_hash_and_call() {
    assert_eq!(
        parse_expression(vec![Token::LeftBracket, Token::RightBracket]).unwrap(),
        Expression::Array(vec![])
    );
    assert_eq!(
        parse_expression(vec![Token::LeftBrace, Token::RightBrace]).unwrap(),
        Expression::Hash(vec![])
    );
    assert_eq!(
        parse_expression(vec![ident("f"), Token::LeftParen, Token::RightParen]).unwrap(),
        Expression::FunctionCall(Box::new(Expression::Identifier(name("f"))), vec![])
    );
}

#[test]
fn mismatched_bracket() {
    let tokens = vec![Token::LeftBracket, dec(1), Token::RightBrace];
    assert_eq!(parse_expression(tokens).unwrap_err(), Error::MismatchedBracket);
    assert_eq!(parse(vec![Token::RightBrace]).unwrap_err(), Error::MismatchedBracket);
}

#[test]
fn unexpected_end_of_input() {
    let tokens = vec![dec(1), Token::Plus];
    assert_eq!(parse_expression(tokens).unwrap_err(), Error::UnexpectedEndOfInput);
    let tokens = vec![Token::If, Token::LeftParen, Token::True, Token::RightParen, Token::LeftBrace];
    assert_eq!(parse(tokens).unwrap_err(), Error::UnexpectedEndOfInput);
}

#[test]
fn unexpected_token() {
    assert_eq!(parse(vec![Token::Let, dec(1)]).unwrap_err(), Error::UnexpectedToken);
    assert_eq!(parse(vec![Token::Semicolon]).unwrap_err(), Error::UnexpectedToken);
}

#[test]
fn hex_and_decimal_keep_their_radix_and_value() {
    let hex = parse_expression(vec![Token::HexIntLiteral(10)]).unwrap();
    let dec_lit = parse_expression(vec![dec(10)]).unwrap();
    assert_ne!(hex, dec_lit);
    match (hex, dec_lit) {
        (Expression::Literal(a), Expression::Literal(b)) => {
            assert!(a.same_value(&b));
            assert_eq!(a.int_value(), Some(10));
            assert_eq!(b.int_value(), Some(10));
            assert!(!a.same_value(&Literal::DecimalInt(11)));
            assert!(!a.same_value(&Literal::String("10".to_string())));
        }
        _ => panic!("expected literals"),
    }
}

#[test]
fn feeding_tokens_builds_a_program() {
    let mut p = Parser::new();
    assert!(p.feed(dec(123)).is_ok());
    assert!(!p.is_complete());
    assert!(p.feed(Token::Semicolon).is_ok());
    assert!(p.is_complete());
    assert!(p.feed(Token::EndOfInput).is_ok());
    let expected = expr_statement(Expression::Literal(Literal::DecimalInt(123)));
    assert_eq!(p.get_tree().unwrap(), expected);
}

#[test]
fn token_after_end_of_input_fails_the_parse() {
    let mut p = Parser::new();
    assert!(p.feed(dec(1)).is_ok());
    assert!(p.feed(Token::Semicolon).is_ok());
    assert!(p.feed(Token::EndOfInput).is_ok());
    assert_eq!(p.feed(Token::Let).unwrap_err(), Error::UnexpectedToken);
    assert_eq!(p.feed(Token::Semicolon).unwrap_err(), Error::UnexpectedToken);
    assert_eq!(p.get_tree().unwrap_err(), Error::UnexpectedToken);
    assert_eq!(parse(vec![Token::EndOfInput, Token::Let]).unwrap_err(), Error::UnexpectedToken);
}

fn feed_all(tokens: Vec<Token>) -> (Parser, Vec<Result<(), Error>>) {
    let mut p = Parser::new();
    let mut results = Vec::new();
    for t in tokens {
        results.push(p.feed(t));
    }
    (p, results)
}

fn assert_refused_last(tokens: Vec<Token>, e: Error) {
    let n = tokens.len();
    let (p, results) = feed_all(tokens);
    for r in &results[..n - 1] {
        assert!(r.is_ok());
    }
    assert_eq!(results[n - 1], Err(e));
    assert_eq!(p.get_tree().unwrap_err(), e);
}

#[test]
fn feed_reports_mismatched_bracket_at_the_bracket() {
    assert_refused_last(vec![Token::LeftBracket, dec(1), Token::RightBrace], Error::MismatchedBracket);
}

#[test]
fn feed_requires_parenthesized_condition() {
    assert_refused_last(vec![Token::If, Token::True], Error::UnexpectedToken);
}

#[test]
fn feed_rejects_trailing_comma_in_call() {
    let tokens = vec![ident("f"), Token::LeftParen, dec(1), Token::Comma, Token::RightParen];
    assert_refused_last(tokens, Error::UnexpectedToken);
}

#[test]
fn feed_rejects_trailing_comma_in_hash() {
    let tokens = vec![Token::LeftBrace, dec(1), Token::Colon, dec(2), Token::Comma, Token::RightBrace];
    assert_refused_last(tokens, Error::UnexpectedToken);
}

#[test]
fn feed_rejects_identifier_as_hash_key() {
    assert_refused_last(vec![Token::LeftBrace, ident("a")], Error::UnexpectedToken);
}

#[test]
fn feed_rejects_number_after_let() {
    assert_refused_last(vec![Token::Let, dec(5)], Error::UnexpectedToken);
}

#[test]
fn feed_accepts_an_unfinished_program() {
    let tokens = vec![Token::Let, ident("x"), Token::Assign, dec(1)];
    let (p, results) = feed_all(tokens);
    assert!(results.iter().all(|r| r.is_ok()));
    assert!(!p.is_complete());
    assert_eq!(p.get_tree().unwrap_err(), Error::MissingTerminator);
}

#[test]
fn cursor_reads_end_of_input_past_the_end() {
    let tokens = vec![dec(7), Token::Semicolon];
    let c = Cursor::new(&tokens);
    assert_eq!(c.peek(0), &dec(7));
    assert!(!c.at_end(1));
    assert!(c.at_end(2));
    assert!(c.at_end(100));
    assert_eq!(c.advance(1), (&Token::Semicolon, 2));
    assert_eq!(c.advance(2), (&Token::EndOfInput, 2));
    assert_eq!(c.advance(2), (&Token::EndOfInput, 2));
}
