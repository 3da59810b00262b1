//! The executable parser. Each function computes the rule of `grammar` that
//! bears the same stem (`parse_expr` computes `sp_expr`), over the tokens of
//! a `Cursor`.
use vstd::prelude::*;
use crate::ast::{
    expr_view, exprs_view, lemma_exprs_view_push, lemma_pairs_view_push, lemma_stmts_view_push,
    pairs_view, stmt_view, stmts_view, Block, Error, ExprModel, Expression, Identifier, Infix,
    Literal, Prefix, Statement, StmtModel,
};
use crate::grammar::{
    ahead, closer, infix_of, literal_of, missing, power, prefix_of, sp_braced, sp_climb, sp_expr,
    sp_for, sp_hash, sp_if, sp_items, sp_list, sp_pairs, sp_primary, sp_program, sp_step,
    sp_expression_input, sp_program_at, prefix_error, sp_stmt, sp_stmts, terminated, unclosed, PREFIX_POWER,
};
use crate::token::{tok_at, Cursor, Token};

verus! {

pub open spec fn expr_res(r: Result<(Expression, usize), (Error, usize)>) -> Result<(ExprModel, int), (Error, int)> {
    match r {
        Ok((e, p)) => Ok((expr_view(e), p as int)),
        Err((e, p)) => Err((e, p as int)),
    }
}

pub open spec fn exprs_res(r: Result<(Vec<Expression>, usize), (Error, usize)>) -> Result<(Seq<ExprModel>, int), (Error, int)> {
    match r {
        Ok((v, p)) => Ok((exprs_view(v@), p as int)),
        Err((e, p)) => Err((e, p as int)),
    }
}

pub open spec fn pairs_res(r: Result<(Vec<(Literal, Expression)>, usize), (Error, usize)>) -> Result<(Seq<(Literal, ExprModel)>, int), (Error, int)> {
    match r {
        Ok((v, p)) => Ok((pairs_view(v@), p as int)),
        Err((e, p)) => Err((e, p as int)),
    }
}

pub open spec fn stmt_res(r: Result<(Statement, usize), (Error, usize)>) -> Result<(StmtModel, int), (Error, int)> {
    match r {
        Ok((s, p)) => Ok((stmt_view(s), p as int)),
        Err((e, p)) => Err((e, p as int)),
    }
}

pub open spec fn stmts_res(r: Result<(Vec<Statement>, usize), (Error, usize)>) -> Result<(Seq<StmtModel>, int), (Error, int)> {
    match r {
        Ok((v, p)) => Ok((stmts_view(v@), p as int)),
        Err((e, p)) => Err((e, p as int)),
    }
}

pub open spec fn step_res(r: Result<(Option<Box<Expression>>, usize), (Error, usize)>) -> Result<(Option<Box<ExprModel>>, int), (Error, int)> {
    match r {
        Ok((Some(s), p)) => Ok((Some(Box::new(expr_view(*s))), p as int)),
        Ok((None, p)) => Ok((None, p as int)),
        Err((e, p)) => Err((e, p as int)),
    }
}

fn infix_token(t: &Token) -> (r: Option<Infix>)
    ensures
        r == infix_of(*t),
{
    match t {
        Token::Plus => Some(Infix::Add),
        Token::Minus => Some(Infix::Subtract),
        Token::Star => Some(Infix::Multiply),
        Token::Slash => Some(Infix::Divide),
        Token::Equal => Some(Infix::Equal),
        Token::NotEqual => Some(Infix::NotEqual),
        Token::Greater => Some(Infix::GreaterThan),
        Token::GreaterEqual => Some(Infix::GreaterThanOrEqual),
        Token::Less => Some(Infix::LessThan),
        Token::LessEqual => Some(Infix::LessThanOrEqual),
        _ => None,
    }
}

fn prefix_token(t: &Token) -> (r: Option<Prefix>)
    ensures
        r == prefix_of(*t),
{
    match t {
        Token::Minus => Some(Prefix::Negate),
        Token::Bang => Some(Prefix::Bitflip),
        _ => None,
    }
}

fn power_of(op: Infix) -> (r: u8)
    ensures
        r == power(op),
{
    match op {
        Infix::Equal | Infix::NotEqual => 1,
        Infix::GreaterThan | Infix::GreaterThanOrEqual | Infix::LessThan
        | Infix::LessThanOrEqual => 2,
        Infix::Add | Infix::Subtract => 3,
        Infix::Multiply | Infix::Divide => 4,
    }
}

fn literal_token(t: &Token) -> (r: Option<Literal>)
    ensures
        r == literal_of(*t),
{
    match t {
        Token::DecimalIntLiteral(v) => Some(Literal::DecimalInt(*v)),
        Token::HexIntLiteral(v) => Some(Literal::HexInt(*v)),
        Token::StringLiteral(s) => Some(Literal::String(s.clone())),
        Token::True => Some(Literal::Bool(true)),
        Token::False => Some(Literal::Bool(false)),
        _ => None,
    }
}

fn missing_err(t: &Token) -> (r: Error)
    ensures
        r == missing(*t),
{
    match t {
        Token::EndOfInput => Error::UnexpectedEndOfInput,
        _ => Error::UnexpectedToken,
    }
}

fn unclosed_err(t: &Token) -> (r: Error)
    ensures
        r == unclosed(*t),
{
    match t {
        Token::EndOfInput => Error::UnexpectedEndOfInput,
        Token::RightParen | Token::RightBracket | Token::RightBrace => Error::MismatchedBracket,
        _ => Error::UnexpectedToken,
    }
}

fn is_closer(t: &Token, square: bool) -> (r: bool)
    ensures
        r == (*t == closer(square)),
{
    match t {
        Token::RightBracket => square,
        Token::RightParen => !square,
        _ => false,
    }
}

fn terminate(c: &Cursor, pos: usize, s: Statement) -> (r: Result<(Statement, usize), (Error, usize)>)
    requires
        c.wf(),
        pos <= c.tokens().len(),
    ensures
        stmt_res(r) == terminated(c.tokens(), pos as int, stmt_view(s)),
        r matches Ok((_, p)) ==> pos < p <= c.tokens().len(),
{
    match c.peek(pos) {
        Token::Semicolon => Ok((s, pos + 1)),
        _ => Err((Error::MissingTerminator, pos)),
    }
}

fn parse_expr(c: &Cursor, pos: usize, min: u8) -> (r: Result<(Expression, usize), (Error, usize)>)
    requires
        c.wf(),
        pos <= c.tokens().len(),
    ensures
        expr_res(r) == sp_expr(c.tokens(), pos as int, min as int),
        r matches Ok((_, p)) ==> pos < p <= c.tokens().len(),
    decreases c.tokens().len() - pos, 2int,
{
    match prefix_token(c.peek(pos)) {
        Some(op) => match parse_expr(c, pos + 1, PREFIX_POWER) {
            Ok((x, p)) => climb(c, p, Expression::Prefix(op, Box::new(x)), min),
            Err(e) => Err(e),
        },
        None => match parse_primary(c, pos) {
            Ok((x, p)) => climb(c, p, x, min),
            Err(e) => Err(e),
        },
    }
}

fn climb(c: &Cursor, pos: usize, left: Expression, min: u8) -> (r: Result<(Expression, usize), (Error, usize)>)
    requires
        c.wf(),
        pos <= c.tokens().len(),
    ensures
        expr_res(r) == sp_climb(c.tokens(), pos as int, expr_view(left), min as int),
        r matches Ok((_, p)) ==> pos <= p <= c.tokens().len(),
    decreases c.tokens().len() - pos, 0int,
{
    let mut at = pos;
    let mut cur = left;
    loop
        invariant
            c.wf(),
            pos <= at <= c.tokens().len(),
            sp_climb(c.tokens(), pos as int, expr_view(left), min as int) == sp_climb(
                c.tokens(),
                at as int,
                expr_view(cur),
                min as int,
            ),
        decreases c.tokens().len() - at,
    {
        match c.peek(at) {
            Token::LeftParen => match parse_list(c, at + 1, false) {
                Ok((args, p)) => {
                    cur = Expression::FunctionCall(Box::new(cur), args);
                    at = p;
                },
                Err(e) => return Err(e),
            },
            Token::LeftBracket => match parse_expr(c, at + 1, 0) {
                Ok((i, p)) => match c.peek(p) {
                    Token::RightBracket => {
                        cur = Expression::Index(Box::new(cur), Box::new(i));
                        at = p + 1;
                    },
                    t => return Err((unclosed_err(t), p)),
                },
                Err(e) => return Err(e),
            },
            t => match infix_token(t) {
                Some(op) => {
                    let bp = power_of(op);
                    if bp > min {
                        match parse_expr(c, at + 1, bp) {
                            Ok((right, p)) => {
                                cur = Expression::Infix(op, Box::new(cur), Box::new(right));
                                at = p;
                            },
                            Err(e) => return Err(e),
                        }
                    } else {
                        return Ok((cur, at));
                    }
                },
                None => return Ok((cur, at)),
            },
        }
    }
}

fn parse_primary(c: &Cursor, pos: usize) -> (r: Result<(Expression, usize), (Error, usize)>)
    requires
        c.wf(),
        pos <= c.tokens().len(),
    ensures
        expr_res(r) == sp_primary(c.tokens(), pos as int),
        r matches Ok((_, p)) ==> pos < p <= c.tokens().len(),
    decreases c.tokens().len() - pos, 1int,
{
    match c.peek(pos) {
        Token::Identifier(name) => Ok((Expression::Identifier(Identifier(name.clone())), pos + 1)),
        Token::LeftParen => match parse_expr(c, pos + 1, 0) {
            Ok((e, p)) => match c.peek(p) {
                Token::RightParen => Ok((e, p + 1)),
                t => Err((unclosed_err(t), p)),
            },
            Err(e) => Err(e),
        },
        Token::LeftBracket => match parse_list(c, pos + 1, true) {
            Ok((items, p)) => Ok((Expression::Array(items), p)),
            Err(e) => Err(e),
        },
        Token::LeftBrace => match parse_hash(c, pos + 1) {
            Ok((pairs, p)) => Ok((Expression::Hash(pairs), p)),
            Err(e) => Err(e),
        },
        Token::For => parse_for(c, pos + 1),
        Token::If => parse_if(c, pos + 1),
        t => match literal_token(t) {
            Some(l) => Ok((Expression::Literal(l), pos + 1)),
            None => Err((missing_err(t), pos)),
        },
    }
}

fn parse_list(c: &Cursor, pos: usize, square: bool) -> (r: Result<(Vec<Expression>, usize), (Error, usize)>)
    requires
        c.wf(),
        pos <= c.tokens().len(),
    ensures
        exprs_res(r) == sp_list(c.tokens(), pos as int, square),
        r matches Ok((_, p)) ==> pos < p <= c.tokens().len(),
    decreases c.tokens().len() - pos, 4int,
{
    if is_closer(c.peek(pos), square) {
        Ok((Vec::new(), pos + 1))
    } else {
        parse_items(c, pos, square)
    }
}

fn parse_items(c: &Cursor, pos: usize, square: bool) -> (r: Result<(Vec<Expression>, usize), (Error, usize)>)
    requires
        c.wf(),
        pos <= c.tokens().len(),
    ensures
        exprs_res(r) == sp_items(c.tokens(), pos as int, square, Seq::empty()),
        r matches Ok((_, p)) ==> pos < p <= c.tokens().len(),
    decreases c.tokens().len() - pos, 3int,
{
    let mut at = pos;
    let mut acc: Vec<Expression> = Vec::new();
    assert(exprs_view(acc@) =~= Seq::empty());
    loop
        invariant
            c.wf(),
            pos <= at <= c.tokens().len(),
            sp_items(c.tokens(), pos as int, square, Seq::empty()) == sp_items(
                c.tokens(),
                at as int,
                square,
                exprs_view(acc@),
            ),
        decreases c.tokens().len() - at,
    {
        match parse_expr(c, at, 0) {
            Ok((e, p)) => {
                proof {
                    lemma_exprs_view_push(acc@, e);
                }
                acc.push(e);
                let t = c.peek(p);
                match t {
                    Token::Comma => {
                        at = p + 1;
                    },
                    _ => if is_closer(t, square) {
                        return Ok((acc, p + 1));
                    } else {
                        return Err((unclosed_err(t), p));
                    },
                }
            },
            Err(e) => return Err(e),
        }
    }
}

fn parse_hash(c: &Cursor, pos: usize) -> (r: Result<(Vec<(Literal, Expression)>, usize), (Error, usize)>)
    requires
        c.wf(),
        pos <= c.tokens().len(),
    ensures
        pairs_res(r) == sp_hash(c.tokens(), pos as int),
        r matches Ok((_, p)) ==> pos < p <= c.tokens().len(),
    decreases c.tokens().len() - pos, 4int,
{
    match c.peek(pos) {
        Token::RightBrace => Ok((Vec::new(), pos + 1)),
        _ => parse_pairs(c, pos),
    }
}

fn parse_pairs(c: &Cursor, pos: usize) -> (r: Result<(Vec<(Literal, Expression)>, usize), (Error, usize)>)
    requires
        c.wf(),
        pos <= c.tokens().len(),
    ensures
        pairs_res(r) == sp_pairs(c.tokens(), pos as int, Seq::empty()),
        r matches Ok((_, p)) ==> pos < p <= c.tokens().len(),
    decreases c.tokens().len() - pos, 3int,
{
    let mut at = pos;
    let mut acc: Vec<(Literal, Expression)> = Vec::new();
    assert(pairs_view(acc@) =~= Seq::empty());
    loop
        invariant
            c.wf(),
            pos <= at <= c.tokens().len(),
            sp_pairs(c.tokens(), pos as int, Seq::empty()) == sp_pairs(c.tokens(), at as int, pairs_view(acc@)),
        decreases c.tokens().len() - at,
    {
        let t = c.peek(at);
        match literal_token(t) {
            Some(k) => match c.peek(at + 1) {
                Token::Colon => match parse_expr(c, at + 2, 0) {
                    Ok((v, p)) => {
                        proof {
                            lemma_pairs_view_push(acc@, k, v);
                        }
                        acc.push((k, v));
                        match c.peek(p) {
                            Token::Comma => {
                                at = p + 1;
                            },
                            Token::RightBrace => return Ok((acc, p + 1)),
                            t => return Err((unclosed_err(t), p)),
                        }
                    },
                    Err(e) => return Err(e),
                },
                t => return Err((missing_err(t), at + 1)),
            },
            None => return Err((missing_err(t), at)),
        }
    }
}

fn parse_for(c: &Cursor, pos: usize) -> (r: Result<(Expression, usize), (Error, usize)>)
    requires
        c.wf(),
        pos <= c.tokens().len(),
    ensures
        expr_res(r) == sp_for(c.tokens(), pos as int),
        r matches Ok((_, p)) ==> pos < p <= c.tokens().len(),
    decreases c.tokens().len() - pos, 2int,
{
    match c.peek(pos) {
        Token::Identifier(name) => match c.peek(pos + 1) {
            Token::In => match parse_expr(c, pos + 2, 0) {
                Ok((start, p1)) => match c.peek(p1) {
                    Token::To => match parse_expr(c, p1 + 1, 0) {
                        Ok((end, p2)) => match parse_step(c, p2) {
                            Ok((step, p3)) => match parse_braced(c, p3) {
                                Ok((body, p4)) => Ok((
                                    Expression::For(
                                        Identifier(name.clone()),
                                        Box::new(start),
                                        Box::new(end),
                                        step,
                                        Box::new(Block(body)),
                                    ),
                                    p4,
                                )),
                                Err(e) => Err(e),
                            },
                            Err(e) => Err(e),
                        },
                        Err(e) => Err(e),
                    },
                    t => Err((missing_err(t), p1)),
                },
                Err(e) => Err(e),
            },
            t => Err((missing_err(t), pos + 1)),
        },
        t => Err((missing_err(t), pos)),
    }
}

fn parse_step(c: &Cursor, pos: usize) -> (r: Result<(Option<Box<Expression>>, usize), (Error, usize)>)
    requires
        c.wf(),
        pos <= c.tokens().len(),
    ensures
        step_res(r) == sp_step(c.tokens(), pos as int),
        r matches Ok((_, p)) ==> pos <= p <= c.tokens().len(),
    decreases c.tokens().len() - pos, 3int,
{
    match c.peek(pos) {
        Token::Step => match parse_expr(c, pos + 1, 0) {
            Ok((s, p)) => Ok((Some(Box::new(s)), p)),
            Err(e) => Err(e),
        },
        _ => Ok((None, pos)),
    }
}

fn parse_if(c: &Cursor, pos: usize) -> (r: Result<(Expression, usize), (Error, usize)>)
    requires
        c.wf(),
        pos <= c.tokens().len(),
    ensures
        expr_res(r) == sp_if(c.tokens(), pos as int),
        r matches Ok((_, p)) ==> pos < p <= c.tokens().len(),
    decreases c.tokens().len() - pos, 2int,
{
    match c.peek(pos) {
        Token::LeftParen => match parse_expr(c, pos + 1, 0) {
            Ok((cond, p1)) => match c.peek(p1) {
                Token::RightParen => match parse_braced(c, p1 + 1) {
                    Ok((t, p2)) => match c.peek(p2) {
                        Token::Else => match parse_braced(c, p2 + 1) {
                            Ok((f, p3)) => Ok(
                                (Expression::IfExpr(Box::new(cond), Block(t), Some(Block(f))), p3),
                            ),
                            Err(e) => Err(e),
                        },
                        _ => Ok((Expression::IfExpr(Box::new(cond), Block(t), None), p2)),
                    },
                    Err(e) => Err(e),
                },
                t => Err((unclosed_err(t), p1)),
            },
            Err(e) => Err(e),
        },
        t => Err((missing_err(t), pos)),
    }
}

fn parse_braced(c: &Cursor, pos: usize) -> (r: Result<(Vec<Statement>, usize), (Error, usize)>)
    requires
        c.wf(),
        pos <= c.tokens().len(),
    ensures
        stmts_res(r) == sp_braced(c.tokens(), pos as int),
        r matches Ok((_, p)) ==> pos < p <= c.tokens().len(),
    decreases c.tokens().len() - pos, 5int,
{
    match c.peek(pos) {
        Token::LeftBrace => match parse_stmts(c, pos + 1) {
            Ok((b, p)) => match c.peek(p) {
                Token::RightBrace => Ok((b, p + 1)),
                t => Err((missing_err(t), p)),
            },
            Err(e) => Err(e),
        },
        t => Err((missing_err(t), pos)),
    }
}

fn parse_stmts(c: &Cursor, pos: usize) -> (r: Result<(Vec<Statement>, usize), (Error, usize)>)
    requires
        c.wf(),
        pos <= c.tokens().len(),
    ensures
        stmts_res(r) == sp_stmts(c.tokens(), pos as int, Seq::empty()),
        r matches Ok((_, p)) ==> pos <= p <= c.tokens().len(),
    decreases c.tokens().len() - pos, 4int,
{
    let mut at = pos;
    let mut acc: Vec<Statement> = Vec::new();
    assert(stmts_view(acc@) =~= Seq::empty());
    loop
        invariant
            c.wf(),
            pos <= at <= c.tokens().len(),
            sp_stmts(c.tokens(), pos as int, Seq::empty()) == sp_stmts(c.tokens(), at as int, stmts_view(acc@)),
        decreases c.tokens().len() - at,
    {
        match c.peek(at) {
            Token::RightBrace | Token::EndOfInput => return Ok((acc, at)),
            _ => match parse_stmt(c, at) {
                Ok((s, p)) => {
                    proof {
                        lemma_stmts_view_push(acc@, s);
                    }
                    acc.push(s);
                    at = p;
                },
                Err(e) => return Err(e),
            },
        }
    }
}

fn parse_stmt(c: &Cursor, pos: usize) -> (r: Result<(Statement, usize), (Error, usize)>)
    requires
        c.wf(),
        pos <= c.tokens().len(),
    ensures
        stmt_res(r) == sp_stmt(c.tokens(), pos as int),
        r matches Ok((_, p)) ==> pos < p <= c.tokens().len(),
    decreases c.tokens().len() - pos, 3int,
{
    match c.peek(pos) {
        Token::Let => match c.peek(pos + 1) {
            Token::Identifier(name) => match c.peek(pos + 2) {
                Token::Assign => match parse_expr(c, pos + 3, 0) {
                    Ok((e, p)) => terminate(c, p, Statement::Let(Identifier(name.clone()), e)),
                    Err(e) => Err(e),
                },
                t => Err((missing_err(t), pos + 2)),
            },
            t => Err((missing_err(t), pos + 1)),
        },
        Token::Return => match c.peek(pos + 1) {
            Token::Semicolon => Ok((Statement::Return(None), pos + 2)),
            _ => match parse_expr(c, pos + 1, 0) {
                Ok((e, p)) => terminate(c, p, Statement::Return(Some(e))),
                Err(e) => Err(e),
            },
        },
        _ => match parse_expr(c, pos, 0) {
            Ok((e, p)) => terminate(c, p, Statement::Expression(e)),
            Err(e) => Err(e),
        },
    }
}

pub open spec fn block_res(r: Result<Block, Error>) -> Result<Seq<StmtModel>, Error> {
    match r {
        Ok(b) => Ok(stmts_view(b.0@)),
        Err(e) => Err(e),
    }
}

pub open spec fn expression_res(r: Result<Expression, Error>) -> Result<ExprModel, Error> {
    match r {
        Ok(e) => Ok(expr_view(e)),
        Err(e) => Err(e),
    }
}

/// The statements of a whole program, or its first error with the position
/// of the token that caused it.
fn parse_program(c: &Cursor) -> (r: Result<Vec<Statement>, (Error, usize)>)
    requires
        c.wf(),
    ensures
        match r {
            Ok(b) => sp_program_at(c.tokens()) == Ok::<Seq<StmtModel>, (Error, int)>(stmts_view(b@)),
            Err((e, p)) => sp_program_at(c.tokens()) == Err::<Seq<StmtModel>, (Error, int)>((e, p as int)),
        },
{
    match parse_stmts(c, 0) {
        Ok((b, p)) => if !c.at_end(p) {
            Err((Error::MismatchedBracket, p))
        } else if p < c.len() && p + 1 < c.len() {
            Err((Error::UnexpectedToken, p + 1))
        } else {
            Ok(b)
        },
        Err(e) => Err(e),
    }
}

/// Parses a whole program: the statements up to the end of input, or the
/// first error.
pub fn parse(tokens: Vec<Token>) -> (r: Result<Block, Error>)
    ensures
        block_res(r) == sp_program(tokens@),
{
    let c = Cursor::new(&tokens);
    match parse_program(&c) {
        Ok(b) => Ok(Block(b)),
        Err((e, _)) => Err(e),
    }
}

/// Parses input that holds exactly one expression.
pub fn parse_expression(tokens: Vec<Token>) -> (r: Result<Expression, Error>)
    ensures
        expression_res(r) == sp_expression_input(tokens@),
{
    let c = Cursor::new(&tokens);
    match parse_expr(&c, 0, 0) {
        Ok((e, p)) => {
            let t = c.peek(p);
            match t {
                Token::EndOfInput => Ok(e),
                _ => Err(unclosed_err(t)),
            }
        },
        Err((e, _)) => Err(e),
    }
}

/// Takes tokens one at a time and reports the first error at the token that
/// causes it. After an error the parser stays failed.
pub struct Parser {
    tokens: Vec<Token>,
    failed: Option<Error>,
}

impl Parser {
    /// The tokens accepted so far, and the one refused, if any.
    pub closed spec fn fed(&self) -> Seq<Token> {
        self.tokens@
    }

    /// The parser's state matches its tokens: failed exactly when a token
    /// fed caused an error.
    pub closed spec fn wf(&self) -> bool {
        self.failed == prefix_error(self.tokens@)
    }

    pub fn new() -> (p: Parser)
        ensures
            p.wf(),
            p.fed() == Seq::<Token>::empty(),
    {
        let p = Parser { tokens: Vec::new(), failed: None };
        assert(sp_stmts(p.tokens@, 0, Seq::empty()) == Ok::<(Seq<StmtModel>, int), (Error, int)>((Seq::empty(), 0)));
        p
    }

    /// Feeds one token. It is refused, with the grammar's error at it, when
    /// it cannot continue the tokens fed before; every later token is then
    /// refused with the same error and changes nothing.
    pub fn feed(&mut self, token: Token) -> (r: Result<(), Error>)
        requires
            old(self).wf(),
        ensures
            final(self).wf(),
            prefix_error(old(self).fed()) matches Some(e) ==> r == Err::<(), Error>(e)
                && final(self).fed() == old(self).fed(),
            prefix_error(old(self).fed()) is None ==> final(self).fed() == old(self).fed().push(token)
                && r == match prefix_error(final(self).fed()) {
                    Some(e) => Err::<(), Error>(e),
                    None => Ok(()),
                },
    {
        if let Some(e) = self.failed {
            return Err(e);
        }
        self.tokens.push(token);
        let c = Cursor::new(&self.tokens);
        match parse_program(&c) {
            Err((e, p)) => if p < c.len() {
                self.failed = Some(e);
                Err(e)
            } else {
                Ok(())
            },
            Ok(_) => Ok(()),
        }
    }

    /// Whether the tokens fed so far form a complete program.
    pub fn is_complete(&self) -> (r: bool)
        ensures
            r == sp_program(self.fed()) is Ok,
    {
        let c = Cursor::new(&self.tokens);
        match parse_program(&c) {
            Ok(_) => true,
            Err(_) => false,
        }
    }

    /// The program made of every token fed, or the first error in it. Once
    /// `feed` has refused a token, this is that error.
    pub fn get_tree(self) -> (r: Result<Block, Error>)
        requires
            self.wf(),
        ensures
            block_res(r) == sp_program(self.fed()),
            prefix_error(self.fed()) matches Some(e) ==> r == Err::<Block, Error>(e),
    {
        match self.failed {
            Some(e) => Err(e),
            None => parse(self.tokens),
        }
    }
}

} // verus!
