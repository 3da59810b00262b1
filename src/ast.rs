use vstd::prelude::*;

verus! {

/// A linear series of statements.
#[derive(PartialEq, Debug)]
pub struct Block(pub Vec<Statement>);

/// Our program is made of statements.
#[derive(PartialEq, Debug)]
pub enum Statement {
    Let(Identifier, Expression),
    /// `return;` carries no value.
    Return(Option<Expression>),
    Expression(Expression),
}

/// A name, looked up by the evaluator in its local or global variables.
#[derive(PartialEq, Debug, Clone)]
pub struct Identifier(pub String);

/// Expressions are how things are calculated.
#[derive(PartialEq, Debug)]
pub enum Expression {
    Identifier(Identifier),
    Literal(Literal),
    Prefix(Prefix, Box<Expression>),
    Infix(Infix, Box<Expression>, Box<Expression>),
    /// Loop variable, start value, end value, step, body.
    For(Identifier, Box<Expression>, Box<Expression>, Option<Box<Expression>>, Box<Block>),
    /// The condition is checked for truthiness.
    IfExpr(Box<Expression>, Block, Option<Block>),
    /// The callee, then the arguments.
    FunctionCall(Box<Expression>, Vec<Expression>),
    Array(Vec<Expression>),
    Hash(Vec<(Literal, Expression)>),
    /// The collection, then the index.
    Index(Box<Expression>, Box<Expression>),
}

#[derive(PartialEq, Eq, Structural, Debug, Clone, Copy)]
pub enum Infix {
    Add,
    Subtract,
    Multiply,
    Divide,
    Equal,
    NotEqual,
    GreaterThan,
    GreaterThanOrEqual,
    LessThan,
    LessThanOrEqual,
}

#[derive(PartialEq, Eq, Structural, Debug, Clone, Copy)]
pub enum Prefix {
    Negate,
    Bitflip,
}

/// `DecimalInt` and `HexInt` denote the same kind of value; the variant only
/// records which radix the source used.
#[derive(PartialEq, Debug, Clone)]
pub enum Literal {
    String(String),
    DecimalInt(i64),
    HexInt(i64),
    Bool(bool),
}

/// The mathematical form of an expression: sequences in place of vectors.
pub enum ExprModel {
    Identifier(Identifier),
    Literal(Literal),
    Prefix(Prefix, Box<ExprModel>),
    Infix(Infix, Box<ExprModel>, Box<ExprModel>),
    For(Identifier, Box<ExprModel>, Box<ExprModel>, Option<Box<ExprModel>>, Seq<StmtModel>),
    IfExpr(Box<ExprModel>, Seq<StmtModel>, Option<Seq<StmtModel>>),
    FunctionCall(Box<ExprModel>, Seq<ExprModel>),
    Array(Seq<ExprModel>),
    Hash(Seq<(Literal, ExprModel)>),
    Index(Box<ExprModel>, Box<ExprModel>),
}

/// The mathematical form of a statement.
pub enum StmtModel {
    Let(Identifier, ExprModel),
    Return(Option<ExprModel>),
    Expression(ExprModel),
}

pub open spec fn expr_view(e: Expression) -> ExprModel
    decreases e, 0int,
{
    match e {
        Expression::Identifier(id) => ExprModel::Identifier(id),
        Expression::Literal(l) => ExprModel::Literal(l),
        Expression::Prefix(op, x) => ExprModel::Prefix(op, Box::new(expr_view(*x))),
        Expression::Infix(op, l, r) => ExprModel::Infix(
            op,
            Box::new(expr_view(*l)),
            Box::new(expr_view(*r)),
        ),
        Expression::For(id, start, end, step, body) => ExprModel::For(
            id,
            Box::new(expr_view(*start)),
            Box::new(expr_view(*end)),
            match step {
                Some(s) => Some(Box::new(expr_view(*s))),
                None => None,
            },
            stmts_view(body.0@),
        ),
        Expression::IfExpr(c, t, f) => ExprModel::IfExpr(
            Box::new(expr_view(*c)),
            stmts_view(t.0@),
            match f {
                Some(b) => Some(stmts_view(b.0@)),
                None => None,
            },
        ),
        Expression::FunctionCall(f, args) => ExprModel::FunctionCall(
            Box::new(expr_view(*f)),
            exprs_view(args@),
        ),
        Expression::Array(items) => ExprModel::Array(exprs_view(items@)),
        Expression::Hash(pairs) => ExprModel::Hash(pairs_view(pairs@)),
        Expression::Index(c, i) => ExprModel::Index(Box::new(expr_view(*c)), Box::new(expr_view(*i))),
    }
}

pub open spec fn exprs_view(s: Seq<Expression>) -> Seq<ExprModel>
    decreases s, 1int,
{
    if s.len() == 0 {
        Seq::empty()
    } else {
        exprs_view(s.drop_last()).push(expr_view(s.last()))
    }
}

pub open spec fn pairs_view(s: Seq<(Literal, Expression)>) -> Seq<(Literal, ExprModel)>
    decreases s, 1int,
{
    if s.len() == 0 {
        Seq::empty()
    } else {
        pairs_view(s.drop_last()).push((s.last().0, expr_view(s.last().1)))
    }
}

pub open spec fn stmt_view(st: Statement) -> StmtModel
    decreases st, 0int,
{
    match st {
        Statement::Let(id, e) => StmtModel::Let(id, expr_view(e)),
        Statement::Return(e) => StmtModel::Return(
            match e {
                Some(x) => Some(expr_view(x)),
                None => None,
            },
        ),
        Statement::Expression(e) => StmtModel::Expression(expr_view(e)),
    }
}

pub open spec fn stmts_view(s: Seq<Statement>) -> Seq<StmtModel>
    decreases s, 1int,
{
    if s.len() == 0 {
        Seq::empty()
    } else {
        stmts_view(s.drop_last()).push(stmt_view(s.last()))
    }
}

} // verus!

verus! {

/// Why a parse failed. The first error ends the parse.
#[derive(PartialEq, Eq, Structural, Debug, Clone, Copy)]
pub enum Error {
    /// The token found fits no rule at its position.
    UnexpectedToken,
    /// The input ended in the middle of a construct.
    UnexpectedEndOfInput,
    /// A statement was not closed by `;`.
    MissingTerminator,
    /// A closing bracket of another kind than the one opened.
    MismatchedBracket,
}

} // verus!

verus! {

pub proof fn lemma_exprs_view_push(s: Seq<Expression>, e: Expression)
    ensures
        exprs_view(s.push(e)) == exprs_view(s).push(expr_view(e)),
{
    assert(s.push(e).drop_last() =~= s);
}

pub proof fn lemma_pairs_view_push(s: Seq<(Literal, Expression)>, k: Literal, e: Expression)
    ensures
        pairs_view(s.push((k, e))) == pairs_view(s).push((k, expr_view(e))),
{
    assert(s.push((k, e)).drop_last() =~= s);
}

pub proof fn lemma_stmts_view_push(s: Seq<Statement>, st: Statement)
    ensures
        stmts_view(s.push(st)) == stmts_view(s).push(stmt_view(st)),
{
    assert(s.push(st).drop_last() =~= s);
}

} // verus!

verus! {

/// What a literal denotes, with the radix of an integer forgotten.
pub enum LiteralValue {
    Str(Seq<char>),
    Int(int),
    Bool(bool),
}

pub open spec fn literal_value(l: Literal) -> LiteralValue {
    match l {
        Literal::String(s) => LiteralValue::Str(s@),
        Literal::DecimalInt(v) => LiteralValue::Int(v as int),
        Literal::HexInt(v) => LiteralValue::Int(v as int),
        Literal::Bool(b) => LiteralValue::Bool(b),
    }
}

impl Literal {
    /// The integer a literal denotes, in either radix.
    pub fn int_value(&self) -> (r: Option<i64>)
        ensures
            r is Some <==> literal_value(*self) is Int,
            r matches Some(v) ==> literal_value(*self) == LiteralValue::Int(v as int),
    {
        match self {
            Literal::DecimalInt(v) => Some(*v),
            Literal::HexInt(v) => Some(*v),
            _ => None,
        }
    }

    /// Whether two literals denote the same value: `0xA` and `10` do.
    pub fn same_value(&self, other: &Literal) -> (r: bool)
        ensures
            r == (literal_value(*self) == literal_value(*other)),
    {
        match (self, other) {
            (Literal::String(a), Literal::String(b)) => {
                let r = a.eq(b);
                r
            },
            (Literal::Bool(a), Literal::Bool(b)) => *a == *b,
            _ => match (self.int_value(), other.int_value()) {
                (Some(a), Some(b)) => a == b,
                _ => false,
            },
        }
    }
}

} // verus!
