//! The language's grammar, stated as functions from a token sequence and a
//! position to a tree and the position after it.
use vstd::prelude::*;
use crate::ast::{Error, ExprModel, Identifier, Infix, Literal, Prefix, StmtModel};
use crate::token::{tok_at, Token};

verus! {

/// The binding power of the prefix operators: above every infix operator.
pub const PREFIX_POWER: u8 = 5;

pub open spec fn infix_of(t: Token) -> Option<Infix> {
    match t {
        Token::Plus => Some(Infix::Add),
        Token::Minus => Some(Infix::Subtract),
        Token::Star => Some(Infix::Multiply),
        Token::Slash => Some(Infix::Divide),
        Token::Equal => Some(Infix::Equal),
        Token::NotEqual => Some(Infix::NotEqual),
        Token::Greater => Some(Infix::GreaterThan),
        Token::GreaterEqual => Some(Infix::GreaterThanOrEqual),
        Token::Less => Some(Infix::LessThan),
        Token::LessEqual => Some(Infix::LessThanOrEqual),
        _ => None,
    }
}

pub open spec fn prefix_of(t: Token) -> Option<Prefix> {
    match t {
        Token::Minus => Some(Prefix::Negate),
        Token::Bang => Some(Prefix::Bitflip),
        _ => None,
    }
}

/// Binding power, low to high: equality, relational, additive, multiplicative.
pub open spec fn power(op: Infix) -> int {
    match op {
        Infix::Equal | Infix::NotEqual => 1,
        Infix::GreaterThan | Infix::GreaterThanOrEqual | Infix::LessThan
        | Infix::LessThanOrEqual => 2,
        Infix::Add | Infix::Subtract => 3,
        Infix::Multiply | Infix::Divide => 4,
    }
}

pub open spec fn literal_of(t: Token) -> Option<Literal> {
    match t {
        Token::DecimalIntLiteral(v) => Some(Literal::DecimalInt(v)),
        Token::HexIntLiteral(v) => Some(Literal::HexInt(v)),
        Token::StringLiteral(s) => Some(Literal::String(s)),
        Token::True => Some(Literal::Bool(true)),
        Token::False => Some(Literal::Bool(false)),
        _ => None,
    }
}

/// The error when `t` stands where another token was required.
pub open spec fn missing(t: Token) -> Error {
    match t {
        Token::EndOfInput => Error::UnexpectedEndOfInput,
        _ => Error::UnexpectedToken,
    }
}

/// The error when `t` stands where a bracket was to be closed.
pub open spec fn unclosed(t: Token) -> Error {
    match t {
        Token::EndOfInput => Error::UnexpectedEndOfInput,
        Token::RightParen | Token::RightBracket | Token::RightBrace => Error::MismatchedBracket,
        _ => Error::UnexpectedToken,
    }
}

/// The closing token of a list: `]` when `square`, else `)`.
pub open spec fn closer(square: bool) -> Token {
    if square {
        Token::RightBracket
    } else {
        Token::RightParen
    }
}

/// A sub-parse that ended past `pos` and within the input; any other
/// outcome is an error. Stating this keeps the rules well-founded. The
/// executable parser proves of each of its sub-parses that it ends past
/// its start, so on its inputs this guard never decides a result.
pub open spec fn ahead<T>(r: Result<(T, int), (Error, int)>, pos: int, len: int) -> Result<(T, int), (Error, int)> {
    match r {
        Ok(v) => if pos < v.1 <= len {
            Ok(v)
        } else {
            Err((Error::UnexpectedToken, pos))
        },
        Err(e) => Err(e),
    }
}

/// A statement closed by `;` at `pos`.
pub open spec fn terminated(ts: Seq<Token>, pos: int, s: StmtModel) -> Result<(StmtModel, int), (Error, int)> {
    if tok_at(ts, pos) is Semicolon {
        Ok((s, pos + 1))
    } else {
        Err((Error::MissingTerminator, pos))
    }
}

/// An expression whose operators all bind tighter than `min`.
pub open spec fn sp_expr(ts: Seq<Token>, pos: int, min: int) -> Result<(ExprModel, int), (Error, int)>
    decreases ts.len() - pos, 2int,
{
    match prefix_of(tok_at(ts, pos)) {
        Some(op) => match ahead(sp_expr(ts, pos + 1, PREFIX_POWER as int), pos, ts.len() as int) {
            Ok((x, p)) => sp_climb(ts, p, ExprModel::Prefix(op, Box::new(x)), min),
            Err(e) => Err(e),
        },
        None => match ahead(sp_primary(ts, pos), pos, ts.len() as int) {
            Ok((x, p)) => sp_climb(ts, p, x, min),
            Err(e) => Err(e),
        },
    }
}

/// Extends `left` by calls, indexing and infix operators that bind tighter
/// than `min`, from `pos` on.
pub open spec fn sp_climb(ts: Seq<Token>, pos: int, left: ExprModel, min: int) -> Result<(ExprModel, int), (Error, int)>
    decreases ts.len() - pos, 0int,
{
    match tok_at(ts, pos) {
        Token::LeftParen => match ahead(sp_list(ts, pos + 1, false), pos, ts.len() as int) {
            Ok((args, p)) => sp_climb(ts, p, ExprModel::FunctionCall(Box::new(left), args), min),
            Err(e) => Err(e),
        },
        Token::LeftBracket => match ahead(sp_expr(ts, pos + 1, 0), pos, ts.len() as int) {
            Ok((i, p)) => if tok_at(ts, p) is RightBracket {
                sp_climb(ts, p + 1, ExprModel::Index(Box::new(left), Box::new(i)), min)
            } else {
                Err((unclosed(tok_at(ts, p)), p))
            },
            Err(e) => Err(e),
        },
        t => match infix_of(t) {
            Some(op) => if power(op) > min {
                match ahead(sp_expr(ts, pos + 1, power(op)), pos, ts.len() as int) {
                    Ok((r, p)) => sp_climb(ts, p, ExprModel::Infix(op, Box::new(left), Box::new(r)), min),
                    Err(e) => Err(e),
                }
            } else {
                Ok((left, pos))
            },
            None => Ok((left, pos)),
        },
    }
}

/// An operand: a name, a literal, a parenthesized expression, an array, a
/// hash, a `for` or an `if`.
pub open spec fn sp_primary(ts: Seq<Token>, pos: int) -> Result<(ExprModel, int), (Error, int)>
    decreases ts.len() - pos, 1int,
{
    match tok_at(ts, pos) {
        Token::Identifier(name) => Ok((ExprModel::Identifier(Identifier(name)), pos + 1)),
        Token::LeftParen => match sp_expr(ts, pos + 1, 0) {
            Ok((e, p)) => if tok_at(ts, p) is RightParen {
                Ok((e, p + 1))
            } else {
                Err((unclosed(tok_at(ts, p)), p))
            },
            Err(e) => Err(e),
        },
        Token::LeftBracket => match sp_list(ts, pos + 1, true) {
            Ok((items, p)) => Ok((ExprModel::Array(items), p)),
            Err(e) => Err(e),
        },
        Token::LeftBrace => match sp_hash(ts, pos + 1) {
            Ok((pairs, p)) => Ok((ExprModel::Hash(pairs), p)),
            Err(e) => Err(e),
        },
        Token::For => sp_for(ts, pos + 1),
        Token::If => sp_if(ts, pos + 1),
        t => match literal_of(t) {
            Some(l) => Ok((ExprModel::Literal(l), pos + 1)),
            None => Err((missing(t), pos)),
        },
    }
}

/// The comma-separated expressions of a list whose opening bracket stood
/// just before `pos`, and the position after its closing bracket.
pub open spec fn sp_list(ts: Seq<Token>, pos: int, square: bool) -> Result<(Seq<ExprModel>, int), (Error, int)>
    decreases ts.len() - pos, 4int,
{
    if tok_at(ts, pos) == closer(square) {
        Ok((Seq::empty(), pos + 1))
    } else {
        sp_items(ts, pos, square, Seq::empty())
    }
}

/// The items of a non-empty list from `pos` on, after the items `acc`.
pub open spec fn sp_items(ts: Seq<Token>, pos: int, square: bool, acc: Seq<ExprModel>) -> Result<(Seq<ExprModel>, int), (Error, int)>
    decreases ts.len() - pos, 3int,
{
    match ahead(sp_expr(ts, pos, 0), pos, ts.len() as int) {
        Ok((e, p)) => if tok_at(ts, p) is Comma {
            sp_items(ts, p + 1, square, acc.push(e))
        } else if tok_at(ts, p) == closer(square) {
            Ok((acc.push(e), p + 1))
        } else {
            Err((unclosed(tok_at(ts, p)), p))
        },
        Err(e) => Err(e),
    }
}

/// The pairs of a hash whose `{` stood just before `pos`.
pub open spec fn sp_hash(ts: Seq<Token>, pos: int) -> Result<(Seq<(Literal, ExprModel)>, int), (Error, int)>
    decreases ts.len() - pos, 4int,
{
    if tok_at(ts, pos) is RightBrace {
        Ok((Seq::empty(), pos + 1))
    } else {
        sp_pairs(ts, pos, Seq::empty())
    }
}

/// The `literal : expression` pairs of a non-empty hash from `pos` on.
pub open spec fn sp_pairs(ts: Seq<Token>, pos: int, acc: Seq<(Literal, ExprModel)>) -> Result<(Seq<(Literal, ExprModel)>, int), (Error, int)>
    decreases ts.len() - pos, 3int,
{
    match literal_of(tok_at(ts, pos)) {
        Some(k) => if tok_at(ts, pos + 1) is Colon {
            match ahead(sp_expr(ts, pos + 2, 0), pos, ts.len() as int) {
                Ok((v, p)) => if tok_at(ts, p) is Comma {
                    sp_pairs(ts, p + 1, acc.push((k, v)))
                } else if tok_at(ts, p) is RightBrace {
                    Ok((acc.push((k, v)), p + 1))
                } else {
                    Err((unclosed(tok_at(ts, p)), p))
                },
                Err(e) => Err(e),
            }
        } else {
            Err((missing(tok_at(ts, pos + 1)), pos + 1))
        },
        None => Err((missing(tok_at(ts, pos)), pos)),
    }
}

/// `for` without its keyword: `<name> in <expr> to <expr> [step <expr>] { <block> }`.
pub open spec fn sp_for(ts: Seq<Token>, pos: int) -> Result<(ExprModel, int), (Error, int)>
    decreases ts.len() - pos, 2int,
{
    match tok_at(ts, pos) {
        Token::Identifier(name) => if tok_at(ts, pos + 1) is In {
            match ahead(sp_expr(ts, pos + 2, 0), pos, ts.len() as int) {
                Ok((start, p1)) => if tok_at(ts, p1) is To {
                    match ahead(sp_expr(ts, p1 + 1, 0), pos, ts.len() as int) {
                        Ok((end, p2)) => match ahead(sp_step(ts, p2), pos, ts.len() as int) {
                            Ok((step, p3)) => match sp_braced(ts, p3) {
                                Ok((body, p4)) => Ok((
                                    ExprModel::For(Identifier(name), Box::new(start), Box::new(end), step, body),
                                    p4,
                                )),
                                Err(e) => Err(e),
                            },
                            Err(e) => Err(e),
                        },
                        Err(e) => Err(e),
                    }
                } else {
                    Err((missing(tok_at(ts, p1)), p1))
                },
                Err(e) => Err(e),
            }
        } else {
            Err((missing(tok_at(ts, pos + 1)), pos + 1))
        },
        t => Err((missing(t), pos)),
    }
}

/// The optional `step <expr>` of a `for`.
pub open spec fn sp_step(ts: Seq<Token>, pos: int) -> Result<(Option<Box<ExprModel>>, int), (Error, int)>
    decreases ts.len() - pos, 3int,
{
    if tok_at(ts, pos) is Step {
        match sp_expr(ts, pos + 1, 0) {
            Ok((s, p)) => Ok((Some(Box::new(s)), p)),
            Err(e) => Err(e),
        }
    } else {
        Ok((None, pos))
    }
}

/// `if` without its keyword: `( <expr> ) { <block> } [else { <block> }]`.
pub open spec fn sp_if(ts: Seq<Token>, pos: int) -> Result<(ExprModel, int), (Error, int)>
    decreases ts.len() - pos, 2int,
{
    if tok_at(ts, pos) is LeftParen {
        match ahead(sp_expr(ts, pos + 1, 0), pos, ts.len() as int) {
            Ok((c, p1)) => if tok_at(ts, p1) is RightParen {
                match ahead(sp_braced(ts, p1 + 1), pos, ts.len() as int) {
                    Ok((t, p2)) => if tok_at(ts, p2) is Else {
                        match sp_braced(ts, p2 + 1) {
                            Ok((f, p3)) => Ok((ExprModel::IfExpr(Box::new(c), t, Some(f)), p3)),
                            Err(e) => Err(e),
                        }
                    } else {
                        Ok((ExprModel::IfExpr(Box::new(c), t, None), p2))
                    },
                    Err(e) => Err(e),
                }
            } else {
                Err((unclosed(tok_at(ts, p1)), p1))
            },
            Err(e) => Err(e),
        }
    } else {
        Err((missing(tok_at(ts, pos)), pos))
    }
}

/// `{ <block> }` at `pos`.
pub open spec fn sp_braced(ts: Seq<Token>, pos: int) -> Result<(Seq<StmtModel>, int), (Error, int)>
    decreases ts.len() - pos, 5int,
{
    if tok_at(ts, pos) is LeftBrace {
        match sp_stmts(ts, pos + 1, Seq::empty()) {
            Ok((b, p)) => if tok_at(ts, p) is RightBrace {
                Ok((b, p + 1))
            } else {
                Err((missing(tok_at(ts, p)), p))
            },
            Err(e) => Err(e),
        }
    } else {
        Err((missing(tok_at(ts, pos)), pos))
    }
}

/// Statements from `pos` on, after the statements `acc`, up to a `}` or
/// the end of input, which is left in place.
pub open spec fn sp_stmts(ts: Seq<Token>, pos: int, acc: Seq<StmtModel>) -> Result<(Seq<StmtModel>, int), (Error, int)>
    decreases ts.len() - pos, 4int,
{
    if tok_at(ts, pos) is RightBrace || tok_at(ts, pos) is EndOfInput {
        Ok((acc, pos))
    } else {
        match ahead(sp_stmt(ts, pos), pos, ts.len() as int) {
            Ok((s, p)) => sp_stmts(ts, p, acc.push(s)),
            Err(e) => Err(e),
        }
    }
}

/// One statement: `let <name> = <expr>;`, `return [<expr>];` or `<expr>;`.
pub open spec fn sp_stmt(ts: Seq<Token>, pos: int) -> Result<(StmtModel, int), (Error, int)>
    decreases ts.len() - pos, 3int,
{
    match tok_at(ts, pos) {
        Token::Let => match tok_at(ts, pos + 1) {
            Token::Identifier(name) => if tok_at(ts, pos + 2) is Assign {
                match sp_expr(ts, pos + 3, 0) {
                    Ok((e, p)) => terminated(ts, p, StmtModel::Let(Identifier(name), e)),
                    Err(e) => Err(e),
                }
            } else {
                Err((missing(tok_at(ts, pos + 2)), pos + 2))
            },
            t => Err((missing(t), pos + 1)),
        },
        Token::Return => if tok_at(ts, pos + 1) is Semicolon {
            Ok((StmtModel::Return(None), pos + 2))
        } else {
            match sp_expr(ts, pos + 1, 0) {
                Ok((e, p)) => terminated(ts, p, StmtModel::Return(Some(e))),
                Err(e) => Err(e),
            }
        },
        _ => match sp_expr(ts, pos, 0) {
            Ok((e, p)) => terminated(ts, p, StmtModel::Expression(e)),
            Err(e) => Err(e),
        },
    }
}

/// A whole program: statements up to the end of input, and nothing after
/// it. An error comes with the position of the token that caused it; a
/// position at or past the end means that the input ran out.
pub open spec fn sp_program_at(ts: Seq<Token>) -> Result<Seq<StmtModel>, (Error, int)> {
    match sp_stmts(ts, 0, Seq::empty()) {
        Ok((b, p)) => if !(tok_at(ts, p) is EndOfInput) {
            Err((Error::MismatchedBracket, p))
        } else if p + 1 < ts.len() {
            Err((Error::UnexpectedToken, p + 1))
        } else {
            Ok(b)
        },
        Err(e) => Err(e),
    }
}

/// A whole program, or its first error. A `}` that closes nothing is a
/// mismatched bracket; a token after the end-of-input marker is unexpected.
pub open spec fn sp_program(ts: Seq<Token>) -> Result<Seq<StmtModel>, Error> {
    match sp_program_at(ts) {
        Ok(b) => Ok(b),
        Err((e, _)) => Err(e),
    }
}

/// The first error that a token of `ts` itself causes, if any. `None` means
/// that `ts` is a program, or that the program has only run out of tokens.
pub open spec fn prefix_error(ts: Seq<Token>) -> Option<Error> {
    match sp_program_at(ts) {
        Err((e, p)) => if p < ts.len() {
            Some(e)
        } else {
            None
        },
        Ok(_) => None,
    }
}

/// A single expression spanning the whole input.
pub open spec fn sp_expression_input(ts: Seq<Token>) -> Result<ExprModel, Error> {
    match sp_expr(ts, 0, 0) {
        Ok((e, p)) => if tok_at(ts, p) is EndOfInput {
            Ok(e)
        } else {
            Err(unclosed(tok_at(ts, p)))
        },
        Err((e, _)) => Err(e),
    }
}

} // verus!
