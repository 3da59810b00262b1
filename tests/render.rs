use monotronian::{parse, parse_expression, Block, Expression, Identifier, Infix, Literal, Prefix, Statement, Token};

fn lit(v: i64) -> Box<Expression> {
    Box::new(Expression::Literal(Literal::DecimalInt(v)))
}

fn id_expr(s: &str) -> Expression {
    Expression::Identifier(Identifier(s.to_string()))
}

#[test]
fn literals_render_in_their_radix() {
    assert_eq!(Literal::DecimalInt(10).to_string(), "10");
    assert_eq!(Literal::HexInt(10).to_string(), "0xa");
    assert_eq!(Literal::HexInt(0).to_string(), "0x0");
    assert_eq!(Literal::HexInt(255).to_string(), "0xff");
    assert_eq!(Literal::DecimalInt(-5).to_string(), "-5");
    assert_eq!(Literal::HexInt(-1).to_string(), "0xffffffffffffffff");
    assert_eq!(Literal::DecimalInt(i64::MIN).to_string(), "-9223372036854775808");
    assert_eq!(Literal::DecimalInt(i64::MAX).to_string(), "9223372036854775807");
    assert_eq!(Literal::String("hi".to_string()).to_string(), "\"hi\"");
    assert_eq!(Literal::Bool(true).to_string(), "true");
    assert_eq!(Literal::Bool(false).to_string(), "false");
}

#[test]
fn operators_render_as_symbols() {
    assert_eq!(Prefix::Negate.to_string(), "-");
    assert_eq!(Prefix::Bitflip.to_string(), "!");
    assert_eq!(Infix::GreaterThanOrEqual.to_string(), ">=");
    assert_eq!(Infix::NotEqual.to_string(), "!=");
    assert_eq!(Identifier("abc".to_string()).to_string(), "abc");
}

#[test]
fn infix_renders_without_parentheses() {
    let e = Expression::Infix(
        Infix::Add,
        lit(1),
        Box::new(Expression::Infix(Infix::Multiply, lit(2), lit(3))),
    );
    assert_eq!(e.to_string(), "1 + 2 * 3");
    let neg = Expression::Prefix(Prefix::Negate, Box::new(id_expr("x")));
    assert_eq!(neg.to_string(), "-x");
}

#[test]
fn composite_expressions_render() {
    let call = Expression::FunctionCall(
        Box::new(id_expr("f")),
        vec![Expression::Literal(Literal::DecimalInt(1)), id_expr("y")],
    );
    assert_eq!(call.to_string(), "f(1, y)\n");
    assert_eq!(Expression::Array(vec![]).to_string(), "[]\n");
    let index = Expression::Index(Box::new(id_expr("a")), lit(0));
    assert_eq!(index.to_string(), "a[0]");
    let hash = Expression::Hash(vec![
        (Literal::String("a".to_string()), Expression::Literal(Literal::DecimalInt(1))),
        (Literal::HexInt(2), id_expr("b")),
    ]);
    assert_eq!(hash.to_string(), "{\"a\": 1, \n0x2: b\n}\n");
    assert_eq!(Expression::Hash(vec![]).to_string(), "{}\n");
}

#[test]
fn control_flow_renders() {
    let f = Expression::For(
        Identifier("i".to_string()),
        lit(0),
        lit(10),
        Some(lit(2)),
        Box::new(Block(vec![Statement::Return(None)])),
    );
    assert_eq!(f.to_string(), "for i in 0 to 10 step 2 {return;\n\n}\n");
    let i = Expression::IfExpr(
        Box::new(Expression::Literal(Literal::Bool(true))),
        Block(vec![]),
        Some(Block(vec![Statement::Expression(id_expr("x"))])),
    );
    assert_eq!(i.to_string(), "if (true) {\n} else {\nx;\n\n}\n");
}

#[test]
fn statements_and_blocks_render() {
    let b = Block(vec![
        Statement::Let(Identifier("x".to_string()), Expression::Literal(Literal::HexInt(16))),
        Statement::Return(Some(id_expr("x"))),
    ]);
    assert_eq!(b.to_string(), "let x = 0x10;\n\nreturn x;\n\n");
    assert_eq!(b.0[1].to_string(), "return x;\n");
}

#[test]
fn parsed_program_renders() {
    let tokens = vec![
        Token::Let,
        Token::Identifier("y".to_string()),
        Token::Assign,
        Token::DecimalIntLiteral(1),
        Token::Minus,
        Token::DecimalIntLiteral(2),
        Token::Minus,
        Token::HexIntLiteral(3),
        Token::Semicolon,
    ];
    assert_eq!(parse(tokens).unwrap().to_string(), "let y = 1 - 2 - 0x3;\n\n");
    let e = parse_expression(vec![Token::HexIntLiteral(10)]).unwrap();
    assert_eq!(e.to_string(), "0xa");
}
