//! Properties of the parser as a whole.
use vstd::prelude::*;
use crate::ast::{literal_value, Block, Literal, LiteralValue};
use crate::grammar::{
    literal_of, prefix_error, sp_braced, sp_climb, sp_for, sp_if, sp_step, sp_expr, sp_expression_input, sp_items, sp_list, sp_primary,
    sp_program, sp_stmt, sp_stmts,
};
use crate::token::tok_at;
use crate::ast::{Error, ExprModel, Identifier, Infix};
use crate::parser::block_res;
use crate::render::{decimal_text, digit_text, digits_text, hex_text, literal_text};
use crate::token::Token;

verus! {

/// Parsing is a function of the tokens: two parses of the same tokens give
/// structurally identical results, the same tree or the same error.
pub proof fn lemma_parse_deterministic(
    t1: Seq<Token>,
    t2: Seq<Token>,
    r1: Result<Block, crate::ast::Error>,
    r2: Result<Block, crate::ast::Error>,
)
    requires
        t1 == t2,
        block_res(r1) == sp_program(t1),
        block_res(r2) == sp_program(t2),
    ensures
        block_res(r1) == block_res(r2),
{
}

/// A decimal and a hexadecimal token of the same number give literals that
/// remember their radix and denote the same integer.
pub proof fn lemma_radix_is_only_a_hint(v: i64)
    ensures
        literal_of(Token::DecimalIntLiteral(v)) == Some(Literal::DecimalInt(v)),
        literal_of(Token::HexIntLiteral(v)) == Some(Literal::HexInt(v)),
        Literal::DecimalInt(v) != Literal::HexInt(v),
        literal_value(Literal::DecimalInt(v)) == literal_value(Literal::HexInt(v)),
        literal_value(Literal::HexInt(v)) == LiteralValue::Int(v as int),
{
}

proof fn lemma_digit_is_not_x(d: nat)
    ensures
        digit_text(d).len() == 1,
        digit_text(d)[0] != 'x',
{
    reveal_strlit("0");
    reveal_strlit("1");
    reveal_strlit("2");
    reveal_strlit("3");
    reveal_strlit("4");
    reveal_strlit("5");
    reveal_strlit("6");
    reveal_strlit("7");
    reveal_strlit("8");
    reveal_strlit("9");
    reveal_strlit("a");
    reveal_strlit("b");
    reveal_strlit("c");
    reveal_strlit("d");
    reveal_strlit("e");
    reveal_strlit("f");
}

proof fn lemma_digits_have_no_x(n: nat, radix: nat)
    requires
        2 <= radix <= 16,
    ensures
        digits_text(n, radix).len() >= 1,
        forall|i: int| 0 <= i < digits_text(n, radix).len() ==> digits_text(n, radix)[i] != 'x',
    decreases n,
{
    if n < radix {
        lemma_digit_is_not_x(n);
    } else {
        assert(n / radix < n) by (nonlinear_arith)
            requires
                n >= radix,
                radix >= 2,
        ;
        lemma_digits_have_no_x(n / radix, radix);
        lemma_digit_is_not_x(n % radix);
    }
}

/// The radix survives rendering: a decimal and a hexadecimal literal of the
/// same number never render alike, while they denote the same integer.
pub proof fn lemma_radix_survives_rendering(v: i64)
    ensures
        literal_text(Literal::DecimalInt(v)) != literal_text(Literal::HexInt(v)),
        literal_value(Literal::DecimalInt(v)) == literal_value(Literal::HexInt(v)),
{
    reveal_strlit("0x");
    reveal_strlit("-");
    let h = hex_text(v as int);
    let d = decimal_text(v as int);
    let m: nat = (if v < 0 { v + 0x1_0000_0000_0000_0000 } else { v as int }) as nat;
    lemma_digits_have_no_x(m, 16);
    assert(h[1] == 'x');
    assert(h.len() >= 3);
    if v < 0 {
        lemma_digits_have_no_x((-v) as nat, 10);
        assert(d[1] != 'x');
    } else {
        lemma_digits_have_no_x(v as nat, 10);
        assert(d.len() < 2 || d[1] != 'x');
    }
}

/// A token that `feed` refuses fails the whole-input parse of the same
/// tokens with the same error: the two modes agree.
pub proof fn lemma_refusal_fails_whole_parse(ts: Seq<Token>)
    ensures
        prefix_error(ts) matches Some(e) ==> sp_program(ts) == Err::<Seq<crate::ast::StmtModel>, Error>(e),
{
}

/// `let x = 1` without `;` lacks its terminator.
pub proof fn lemma_missing_terminator(x: String)
    ensures
        sp_program(seq![Token::Let, Token::Identifier(x), Token::Assign, Token::DecimalIntLiteral(1)])
            == Err::<Seq<crate::ast::StmtModel>, Error>(Error::MissingTerminator),
{
    let ts = seq![Token::Let, Token::Identifier(x), Token::Assign, Token::DecimalIntLiteral(1)];
    let one = ExprModel::Literal(Literal::DecimalInt(1));
    assert(tok_at(ts, 0) == Token::Let);
    assert(tok_at(ts, 1) == Token::Identifier(x));
    assert(tok_at(ts, 2) == Token::Assign);
    assert(tok_at(ts, 3) == Token::DecimalIntLiteral(1));
    assert(tok_at(ts, 4) == Token::EndOfInput);
    assert(sp_primary(ts, 3) == Ok::<(ExprModel, int), (Error, int)>((one, 4)));
    assert(sp_climb(ts, 4, one, 0) == Ok::<(ExprModel, int), (Error, int)>((one, 4)));
    assert(sp_expr(ts, 3, 0) == Ok::<(ExprModel, int), (Error, int)>((one, 4)));
    assert(sp_stmt(ts, 0) is Err);
    assert(sp_stmts(ts, 0, Seq::empty()) is Err);
}

/// `[1, 2, ]` is refused at the closing bracket.
pub proof fn lemma_trailing_comma_rejected()
    ensures
        sp_expression_input(
            seq![
                Token::LeftBracket,
                Token::DecimalIntLiteral(1),
                Token::Comma,
                Token::DecimalIntLiteral(2),
                Token::Comma,
                Token::RightBracket,
            ],
        ) == Err::<ExprModel, Error>(Error::UnexpectedToken),
{
    let ts = seq![
        Token::LeftBracket,
        Token::DecimalIntLiteral(1),
        Token::Comma,
        Token::DecimalIntLiteral(2),
        Token::Comma,
        Token::RightBracket,
    ];
    let one = ExprModel::Literal(Literal::DecimalInt(1));
    let two = ExprModel::Literal(Literal::DecimalInt(2));
    assert(tok_at(ts, 0) == Token::LeftBracket);
    assert(tok_at(ts, 1) == Token::DecimalIntLiteral(1));
    assert(tok_at(ts, 2) == Token::Comma);
    assert(tok_at(ts, 3) == Token::DecimalIntLiteral(2));
    assert(tok_at(ts, 4) == Token::Comma);
    assert(tok_at(ts, 5) == Token::RightBracket);
    assert(sp_primary(ts, 5) == Err::<(ExprModel, int), (Error, int)>((Error::UnexpectedToken, 5)));
    assert(sp_expr(ts, 5, 0) is Err);
    assert(sp_items(ts, 5, true, seq![one, two]) is Err);
    assert(sp_primary(ts, 3) == Ok::<(ExprModel, int), (Error, int)>((two, 4)));
    assert(sp_climb(ts, 4, two, 0) == Ok::<(ExprModel, int), (Error, int)>((two, 4)));
    assert(sp_expr(ts, 3, 0) == Ok::<(ExprModel, int), (Error, int)>((two, 4)));
    assert(seq![one].push(two) =~= seq![one, two]);
    assert(sp_items(ts, 3, true, seq![one]) is Err);
    assert(sp_primary(ts, 1) == Ok::<(ExprModel, int), (Error, int)>((one, 2)));
    assert(sp_climb(ts, 2, one, 0) == Ok::<(ExprModel, int), (Error, int)>((one, 2)));
    assert(sp_expr(ts, 1, 0) == Ok::<(ExprModel, int), (Error, int)>((one, 2)));
    assert(Seq::<ExprModel>::empty().push(one) =~= seq![one]);
    assert(sp_items(ts, 1, true, Seq::empty()) is Err);
    assert(sp_list(ts, 1, true) is Err);
    assert(sp_primary(ts, 0) is Err);
    assert(sp_expr(ts, 0, 0) is Err);
}

pub open spec fn int_lit(v: i64) -> ExprModel {
    ExprModel::Literal(Literal::DecimalInt(v))
}

pub open spec fn infix_model(op: Infix, l: ExprModel, r: ExprModel) -> ExprModel {
    ExprModel::Infix(op, Box::new(l), Box::new(r))
}

/// Multiplication binds tighter than addition: `1 + 2 * 3` is
/// `1 + (2 * 3)`.
pub proof fn lemma_precedence()
    ensures
        sp_expression_input(
            seq![
                Token::DecimalIntLiteral(1),
                Token::Plus,
                Token::DecimalIntLiteral(2),
                Token::Star,
                Token::DecimalIntLiteral(3),
            ],
        ) == Ok::<ExprModel, Error>(
            infix_model(Infix::Add, int_lit(1), infix_model(Infix::Multiply, int_lit(2), int_lit(3))),
        ),
{
    let ts = seq![
        Token::DecimalIntLiteral(1),
        Token::Plus,
        Token::DecimalIntLiteral(2),
        Token::Star,
        Token::DecimalIntLiteral(3),
    ];
    assert(tok_at(ts, 0) == Token::DecimalIntLiteral(1));
    assert(tok_at(ts, 1) == Token::Plus);
    assert(tok_at(ts, 2) == Token::DecimalIntLiteral(2));
    assert(tok_at(ts, 3) == Token::Star);
    assert(tok_at(ts, 4) == Token::DecimalIntLiteral(3));
    assert(tok_at(ts, 5) == Token::EndOfInput);
    let m = infix_model(Infix::Multiply, int_lit(2), int_lit(3));
    let a = infix_model(Infix::Add, int_lit(1), m);
    assert(sp_primary(ts, 4) == Ok::<(ExprModel, int), (Error, int)>((int_lit(3), 5)));
    assert(sp_climb(ts, 5, int_lit(3), 4) == Ok::<(ExprModel, int), (Error, int)>((int_lit(3), 5)));
    assert(sp_expr(ts, 4, 4) == Ok::<(ExprModel, int), (Error, int)>((int_lit(3), 5)));
    assert(sp_climb(ts, 5, m, 3) == Ok::<(ExprModel, int), (Error, int)>((m, 5)));
    assert(sp_primary(ts, 2) == Ok::<(ExprModel, int), (Error, int)>((int_lit(2), 3)));
    assert(sp_climb(ts, 3, int_lit(2), 3) == Ok::<(ExprModel, int), (Error, int)>((m, 5)));
    assert(sp_expr(ts, 2, 3) == Ok::<(ExprModel, int), (Error, int)>((m, 5)));
    assert(sp_climb(ts, 5, a, 0) == Ok::<(ExprModel, int), (Error, int)>((a, 5)));
    assert(sp_primary(ts, 0) == Ok::<(ExprModel, int), (Error, int)>((int_lit(1), 1)));
    assert(sp_climb(ts, 1, int_lit(1), 0) == Ok::<(ExprModel, int), (Error, int)>((a, 5)));
    assert(sp_expr(ts, 0, 0) == Ok::<(ExprModel, int), (Error, int)>((a, 5)));
}

/// Subtraction associates to the left: `1 - 2 - 3` is `(1 - 2) - 3`.
pub proof fn lemma_left_associative()
    ensures
        sp_expression_input(
            seq![
                Token::DecimalIntLiteral(1),
                Token::Minus,
                Token::DecimalIntLiteral(2),
                Token::Minus,
                Token::DecimalIntLiteral(3),
            ],
        ) == Ok::<ExprModel, Error>(
            infix_model(Infix::Subtract, infix_model(Infix::Subtract, int_lit(1), int_lit(2)), int_lit(3)),
        ),
{
    let ts = seq![
        Token::DecimalIntLiteral(1),
        Token::Minus,
        Token::DecimalIntLiteral(2),
        Token::Minus,
        Token::DecimalIntLiteral(3),
    ];
    assert(tok_at(ts, 0) == Token::DecimalIntLiteral(1));
    assert(tok_at(ts, 1) == Token::Minus);
    assert(tok_at(ts, 2) == Token::DecimalIntLiteral(2));
    assert(tok_at(ts, 3) == Token::Minus);
    assert(tok_at(ts, 4) == Token::DecimalIntLiteral(3));
    assert(tok_at(ts, 5) == Token::EndOfInput);
    let d = infix_model(Infix::Subtract, int_lit(1), int_lit(2));
    let e = infix_model(Infix::Subtract, d, int_lit(3));
    assert(sp_primary(ts, 4) == Ok::<(ExprModel, int), (Error, int)>((int_lit(3), 5)));
    assert(sp_climb(ts, 5, int_lit(3), 3) == Ok::<(ExprModel, int), (Error, int)>((int_lit(3), 5)));
    assert(sp_expr(ts, 4, 3) == Ok::<(ExprModel, int), (Error, int)>((int_lit(3), 5)));
    assert(sp_climb(ts, 5, e, 0) == Ok::<(ExprModel, int), (Error, int)>((e, 5)));
    assert(sp_climb(ts, 3, d, 0) == Ok::<(ExprModel, int), (Error, int)>((e, 5)));
    assert(sp_primary(ts, 2) == Ok::<(ExprModel, int), (Error, int)>((int_lit(2), 3)));
    assert(sp_climb(ts, 3, int_lit(2), 3) == Ok::<(ExprModel, int), (Error, int)>((int_lit(2), 3)));
    assert(sp_expr(ts, 2, 3) == Ok::<(ExprModel, int), (Error, int)>((int_lit(2), 3)));
    assert(sp_primary(ts, 0) == Ok::<(ExprModel, int), (Error, int)>((int_lit(1), 1)));
    assert(sp_climb(ts, 1, int_lit(1), 0) == Ok::<(ExprModel, int), (Error, int)>((e, 5)));
    assert(sp_expr(ts, 0, 0) == Ok::<(ExprModel, int), (Error, int)>((e, 5)));
}

/// Postfix forms chain left to right: `a[0](1)` calls the result of `a[0]`.
pub proof fn lemma_postfix_chaining(a: String)
    ensures
        sp_expression_input(
            seq![
                Token::Identifier(a),
                Token::LeftBracket,
                Token::DecimalIntLiteral(0),
                Token::RightBracket,
                Token::LeftParen,
                Token::DecimalIntLiteral(1),
                Token::RightParen,
            ],
        ) == Ok::<ExprModel, Error>(
            ExprModel::FunctionCall(
                Box::new(ExprModel::Index(
                    Box::new(ExprModel::Identifier(Identifier(a))),
                    Box::new(int_lit(0)),
                )),
                seq![int_lit(1)],
            ),
        ),
{
    let ts = seq![
        Token::Identifier(a),
        Token::LeftBracket,
        Token::DecimalIntLiteral(0),
        Token::RightBracket,
        Token::LeftParen,
        Token::DecimalIntLiteral(1),
        Token::RightParen,
    ];
    assert(tok_at(ts, 0) == Token::Identifier(a));
    assert(tok_at(ts, 1) == Token::LeftBracket);
    assert(tok_at(ts, 2) == Token::DecimalIntLiteral(0));
    assert(tok_at(ts, 3) == Token::RightBracket);
    assert(tok_at(ts, 4) == Token::LeftParen);
    assert(tok_at(ts, 5) == Token::DecimalIntLiteral(1));
    assert(tok_at(ts, 6) == Token::RightParen);
    assert(tok_at(ts, 7) == Token::EndOfInput);
    let id = ExprModel::Identifier(Identifier(a));
    let ix = ExprModel::Index(Box::new(id), Box::new(int_lit(0)));
    let call = ExprModel::FunctionCall(Box::new(ix), seq![int_lit(1)]);
    assert(sp_climb(ts, 7, call, 0) == Ok::<(ExprModel, int), (Error, int)>((call, 7)));
    assert(sp_primary(ts, 5) == Ok::<(ExprModel, int), (Error, int)>((int_lit(1), 6)));
    assert(sp_climb(ts, 6, int_lit(1), 0) == Ok::<(ExprModel, int), (Error, int)>((int_lit(1), 6)));
    assert(sp_expr(ts, 5, 0) == Ok::<(ExprModel, int), (Error, int)>((int_lit(1), 6)));
    assert(Seq::<ExprModel>::empty().push(int_lit(1)) =~= seq![int_lit(1)]);
    assert(sp_items(ts, 5, false, Seq::empty()) == Ok::<(Seq<ExprModel>, int), (Error, int)>((seq![int_lit(1)], 7)));
    assert(sp_list(ts, 5, false) == Ok::<(Seq<ExprModel>, int), (Error, int)>((seq![int_lit(1)], 7)));
    assert(sp_climb(ts, 4, ix, 0) == Ok::<(ExprModel, int), (Error, int)>((call, 7)));
    assert(sp_primary(ts, 2) == Ok::<(ExprModel, int), (Error, int)>((int_lit(0), 3)));
    assert(sp_climb(ts, 3, int_lit(0), 0) == Ok::<(ExprModel, int), (Error, int)>((int_lit(0), 3)));
    assert(sp_expr(ts, 2, 0) == Ok::<(ExprModel, int), (Error, int)>((int_lit(0), 3)));
    assert(sp_primary(ts, 0) == Ok::<(ExprModel, int), (Error, int)>((id, 1)));
    assert(sp_climb(ts, 1, id, 0) == Ok::<(ExprModel, int), (Error, int)>((call, 7)));
    assert(sp_expr(ts, 0, 0) == Ok::<(ExprModel, int), (Error, int)>((call, 7)));
}

/// `if (true) { }` has an empty then-block and no else-block.
pub proof fn lemma_empty_if()
    ensures
        sp_expression_input(
            seq![Token::If, Token::LeftParen, Token::True, Token::RightParen, Token::LeftBrace, Token::RightBrace],
        ) == Ok::<ExprModel, Error>(
            ExprModel::IfExpr(Box::new(ExprModel::Literal(Literal::Bool(true))), Seq::empty(), None),
        ),
{
    let ts = seq![Token::If, Token::LeftParen, Token::True, Token::RightParen, Token::LeftBrace, Token::RightBrace];
    assert(tok_at(ts, 0) == Token::If);
    assert(tok_at(ts, 1) == Token::LeftParen);
    assert(tok_at(ts, 2) == Token::True);
    assert(tok_at(ts, 3) == Token::RightParen);
    assert(tok_at(ts, 4) == Token::LeftBrace);
    assert(tok_at(ts, 5) == Token::RightBrace);
    assert(tok_at(ts, 6) == Token::EndOfInput);
    let t = ExprModel::Literal(Literal::Bool(true));
    let e = ExprModel::IfExpr(Box::new(t), Seq::empty(), None);
    assert(sp_stmts(ts, 5, Seq::empty()) == Ok::<(Seq<crate::ast::StmtModel>, int), (Error, int)>((Seq::empty(), 5)));
    assert(sp_braced(ts, 4) == Ok::<(Seq<crate::ast::StmtModel>, int), (Error, int)>((Seq::empty(), 6)));
    assert(sp_primary(ts, 2) == Ok::<(ExprModel, int), (Error, int)>((t, 3)));
    assert(sp_climb(ts, 3, t, 0) == Ok::<(ExprModel, int), (Error, int)>((t, 3)));
    assert(sp_expr(ts, 2, 0) == Ok::<(ExprModel, int), (Error, int)>((t, 3)));
    assert(sp_if(ts, 1) == Ok::<(ExprModel, int), (Error, int)>((e, 6)));
    assert(sp_primary(ts, 0) == Ok::<(ExprModel, int), (Error, int)>((e, 6)));
    assert(sp_climb(ts, 6, e, 0) == Ok::<(ExprModel, int), (Error, int)>((e, 6)));
    assert(sp_expr(ts, 0, 0) == Ok::<(ExprModel, int), (Error, int)>((e, 6)));
}

/// `for i in 0 to 10 { }` has no step and an empty body.
pub proof fn lemma_for_without_step(i: String)
    ensures
        sp_expression_input(
            seq![
                Token::For,
                Token::Identifier(i),
                Token::In,
                Token::DecimalIntLiteral(0),
                Token::To,
                Token::DecimalIntLiteral(10),
                Token::LeftBrace,
                Token::RightBrace,
            ],
        ) == Ok::<ExprModel, Error>(
            ExprModel::For(Identifier(i), Box::new(int_lit(0)), Box::new(int_lit(10)), None, Seq::empty()),
        ),
{
    let ts = seq![
        Token::For,
        Token::Identifier(i),
        Token::In,
        Token::DecimalIntLiteral(0),
        Token::To,
        Token::DecimalIntLiteral(10),
        Token::LeftBrace,
        Token::RightBrace,
    ];
    assert(tok_at(ts, 0) == Token::For);
    assert(tok_at(ts, 1) == Token::Identifier(i));
    assert(tok_at(ts, 2) == Token::In);
    assert(tok_at(ts, 3) == Token::DecimalIntLiteral(0));
    assert(tok_at(ts, 4) == Token::To);
    assert(tok_at(ts, 5) == Token::DecimalIntLiteral(10));
    assert(tok_at(ts, 6) == Token::LeftBrace);
    assert(tok_at(ts, 7) == Token::RightBrace);
    assert(tok_at(ts, 8) == Token::EndOfInput);
    let e = ExprModel::For(Identifier(i), Box::new(int_lit(0)), Box::new(int_lit(10)), None, Seq::empty());
    assert(sp_primary(ts, 3) == Ok::<(ExprModel, int), (Error, int)>((int_lit(0), 4)));
    assert(sp_climb(ts, 4, int_lit(0), 0) == Ok::<(ExprModel, int), (Error, int)>((int_lit(0), 4)));
    assert(sp_expr(ts, 3, 0) == Ok::<(ExprModel, int), (Error, int)>((int_lit(0), 4)));
    assert(sp_primary(ts, 5) == Ok::<(ExprModel, int), (Error, int)>((int_lit(10), 6)));
    assert(sp_climb(ts, 6, int_lit(10), 0) == Ok::<(ExprModel, int), (Error, int)>((int_lit(10), 6)));
    assert(sp_expr(ts, 5, 0) == Ok::<(ExprModel, int), (Error, int)>((int_lit(10), 6)));
    assert(sp_step(ts, 6) == Ok::<(Option<Box<ExprModel>>, int), (Error, int)>((None, 6)));
    assert(sp_stmts(ts, 7, Seq::empty()) == Ok::<(Seq<crate::ast::StmtModel>, int), (Error, int)>((Seq::empty(), 7)));
    assert(sp_braced(ts, 6) == Ok::<(Seq<crate::ast::StmtModel>, int), (Error, int)>((Seq::empty(), 8)));
    assert(sp_for(ts, 1) == Ok::<(ExprModel, int), (Error, int)>((e, 8)));
    assert(sp_primary(ts, 0) == Ok::<(ExprModel, int), (Error, int)>((e, 8)));
    assert(sp_climb(ts, 8, e, 0) == Ok::<(ExprModel, int), (Error, int)>((e, 8)));
    assert(sp_expr(ts, 0, 0) == Ok::<(ExprModel, int), (Error, int)>((e, 8)));
}

/// `for i in 0 to 10 step 2 { }` has step `2` and an empty body.
pub proof fn lemma_for_with_step(i: String)
    ensures
        sp_expression_input(
            seq![
                Token::For,
                Token::Identifier(i),
                Token::In,
                Token::DecimalIntLiteral(0),
                Token::To,
                Token::DecimalIntLiteral(10),
                Token::Step,
                Token::DecimalIntLiteral(2),
                Token::LeftBrace,
                Token::RightBrace,
            ],
        ) == Ok::<ExprModel, Error>(
            ExprModel::For(
                Identifier(i),
                Box::new(int_lit(0)),
                Box::new(int_lit(10)),
                Some(Box::new(int_lit(2))),
                Seq::empty(),
            ),
        ),
{
    let ts = seq![
        Token::For,
        Token::Identifier(i),
        Token::In,
        Token::DecimalIntLiteral(0),
        Token::To,
        Token::DecimalIntLiteral(10),
        Token::Step,
        Token::DecimalIntLiteral(2),
        Token::LeftBrace,
        Token::RightBrace,
    ];
    assert(tok_at(ts, 0) == Token::For);
    assert(tok_at(ts, 1) == Token::Identifier(i));
    assert(tok_at(ts, 2) == Token::In);
    assert(tok_at(ts, 3) == Token::DecimalIntLiteral(0));
    assert(tok_at(ts, 4) == Token::To);
    assert(tok_at(ts, 5) == Token::DecimalIntLiteral(10));
    assert(tok_at(ts, 6) == Token::Step);
    assert(tok_at(ts, 7) == Token::DecimalIntLiteral(2));
    assert(tok_at(ts, 8) == Token::LeftBrace);
    assert(tok_at(ts, 9) == Token::RightBrace);
    assert(tok_at(ts, 10) == Token::EndOfInput);
    let st = Some(Box::new(int_lit(2)));
    let e = ExprModel::For(Identifier(i), Box::new(int_lit(0)), Box::new(int_lit(10)), st, Seq::empty());
    assert(sp_primary(ts, 3) == Ok::<(ExprModel, int), (Error, int)>((int_lit(0), 4)));
    assert(sp_climb(ts, 4, int_lit(0), 0) == Ok::<(ExprModel, int), (Error, int)>((int_lit(0), 4)));
    assert(sp_expr(ts, 3, 0) == Ok::<(ExprModel, int), (Error, int)>((int_lit(0), 4)));
    assert(sp_primary(ts, 5) == Ok::<(ExprModel, int), (Error, int)>((int_lit(10), 6)));
    assert(sp_climb(ts, 6, int_lit(10), 0) == Ok::<(ExprModel, int), (Error, int)>((int_lit(10), 6)));
    assert(sp_expr(ts, 5, 0) == Ok::<(ExprModel, int), (Error, int)>((int_lit(10), 6)));
    assert(sp_primary(ts, 7) == Ok::<(ExprModel, int), (Error, int)>((int_lit(2), 8)));
    assert(sp_climb(ts, 8, int_lit(2), 0) == Ok::<(ExprModel, int), (Error, int)>((int_lit(2), 8)));
    assert(sp_expr(ts, 7, 0) == Ok::<(ExprModel, int), (Error, int)>((int_lit(2), 8)));
    assert(sp_step(ts, 6) == Ok::<(Option<Box<ExprModel>>, int), (Error, int)>((st, 8)));
    assert(sp_stmts(ts, 9, Seq::empty()) == Ok::<(Seq<crate::ast::StmtModel>, int), (Error, int)>((Seq::empty(), 9)));
    assert(sp_braced(ts, 8) == Ok::<(Seq<crate::ast::StmtModel>, int), (Error, int)>((Seq::empty(), 10)));
    assert(sp_for(ts, 1) == Ok::<(ExprModel, int), (Error, int)>((e, 10)));
    assert(sp_primary(ts, 0) == Ok::<(ExprModel, int), (Error, int)>((e, 10)));
    assert(sp_climb(ts, 10, e, 0) == Ok::<(ExprModel, int), (Error, int)>((e, 10)));
    assert(sp_expr(ts, 0, 0) == Ok::<(ExprModel, int), (Error, int)>((e, 10)));
}

} // verus!
