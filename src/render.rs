//! The textual form of a tree: `;`-terminated statements, brace-delimited
//! blocks and infix notation without parentheses. It reads back to a tree
//! only where no grouping was lost.
use vstd::prelude::*;
use vstd::string::StringExecFns;
use crate::ast::{
    expr_view, exprs_view, lemma_exprs_view_push, lemma_pairs_view_push, lemma_stmts_view_push,
    pairs_view, stmt_view, stmts_view, Block, ExprModel, Expression, Identifier, Infix, Literal,
    Prefix,
    Statement, StmtModel,
};

verus! {

pub open spec fn digit_text(d: nat) -> Seq<char> {
    if d == 0 { "0"@ } else if d == 1 { "1"@ } else if d == 2 { "2"@ } else if d == 3 { "3"@ }
    else if d == 4 { "4"@ } else if d == 5 { "5"@ } else if d == 6 { "6"@ } else if d == 7 { "7"@ }
    else if d == 8 { "8"@ } else if d == 9 { "9"@ } else if d == 10 { "a"@ } else if d == 11 { "b"@ }
    else if d == 12 { "c"@ } else if d == 13 { "d"@ } else if d == 14 { "e"@ } else { "f"@ }
}

/// The digits of `n` in base `radix`, most significant first, no leading zeros.
pub open spec fn digits_text(n: nat, radix: nat) -> Seq<char>
    recommends
        2 <= radix <= 16,
    decreases n,
    via digits_text_decreases
{
    if n < radix || radix < 2 {
        digit_text(n)
    } else {
        digits_text(n / radix, radix) + digit_text(n % radix)
    }
}

#[via_fn]
proof fn digits_text_decreases(n: nat, radix: nat) {
    if !(n < radix || radix < 2) {
        assert(n / radix < n) by (nonlinear_arith)
            requires
                n >= radix,
                radix >= 2,
        ;
    }
}

/// An integer in decimal, with a `-` when negative.
pub open spec fn decimal_text(v: int) -> Seq<char> {
    if v < 0 {
        "-"@ + digits_text((-v) as nat, 10)
    } else {
        digits_text(v as nat, 10)
    }
}

/// An integer in lower-case hexadecimal after `0x`; a negative one shows its
/// 64-bit two's complement.
pub open spec fn hex_text(v: int) -> Seq<char> {
    "0x"@ + digits_text((if v < 0 { v + 0x1_0000_0000_0000_0000 } else { v }) as nat, 16)
}

pub open spec fn literal_text(l: Literal) -> Seq<char> {
    match l {
        Literal::String(s) => "\""@ + s@ + "\""@,
        Literal::DecimalInt(v) => decimal_text(v as int),
        Literal::HexInt(v) => hex_text(v as int),
        Literal::Bool(b) => if b { "true"@ } else { "false"@ },
    }
}

pub open spec fn prefix_text(op: Prefix) -> Seq<char> {
    match op {
        Prefix::Negate => "-"@,
        Prefix::Bitflip => "!"@,
    }
}

pub open spec fn infix_text(op: Infix) -> Seq<char> {
    match op {
        Infix::Add => "+"@,
        Infix::Subtract => "-"@,
        Infix::Multiply => "*"@,
        Infix::Divide => "/"@,
        Infix::Equal => "=="@,
        Infix::NotEqual => "!="@,
        Infix::GreaterThan => ">"@,
        Infix::GreaterThanOrEqual => ">="@,
        Infix::LessThan => "<"@,
        Infix::LessThanOrEqual => "<="@,
    }
}

fn append_digit(out: &mut String, d: u64)
    requires
        d < 16,
    ensures
        final(out)@ == old(out)@ + digit_text(d as nat),
{
    let s = match d {
        0 => "0", 1 => "1", 2 => "2", 3 => "3", 4 => "4", 5 => "5", 6 => "6", 7 => "7",
        8 => "8", 9 => "9", 10 => "a", 11 => "b", 12 => "c", 13 => "d", 14 => "e", _ => "f",
    };
    out.append(s);
}

fn append_digits(out: &mut String, n: u64, radix: u64)
    requires
        2 <= radix <= 16,
    ensures
        final(out)@ == old(out)@ + digits_text(n as nat, radix as nat),
    decreases n,
{
    if n < radix {
        append_digit(out, n);
    } else {
        assert(n / radix < n) by (nonlinear_arith)
            requires
                n >= radix,
                radix >= 2,
        ;
        append_digits(out, n / radix, radix);
        append_digit(out, n % radix);
        assert(final(out)@ =~= old(out)@ + digits_text(n as nat, radix as nat));
    }
}

fn append_literal(out: &mut String, l: &Literal)
    ensures
        final(out)@ == old(out)@ + literal_text(*l),
{
    match l {
        Literal::String(s) => {
            out.append("\"");
            out.append(s.as_str());
            out.append("\"");
            assert(final(out)@ =~= old(out)@ + literal_text(*l));
        },
        Literal::DecimalInt(v) => {
            if *v < 0 {
                out.append("-");
                let m: u64 = if *v == i64::MIN { 0x8000_0000_0000_0000 } else { (-*v) as u64 };
                append_digits(out, m, 10);
            } else {
                append_digits(out, *v as u64, 10);
            }
            assert(final(out)@ =~= old(out)@ + literal_text(*l));
        },
        Literal::HexInt(v) => {
            out.append("0x");
            let m: u64 = if *v < 0 {
                (0xffff_ffff_ffff_ffffu64 - ((-(*v + 1)) as u64))
            } else {
                *v as u64
            };
            append_digits(out, m, 16);
            assert(final(out)@ =~= old(out)@ + literal_text(*l));
        },
        Literal::Bool(b) => {
            if *b {
                out.append("true");
            } else {
                out.append("false");
            }
        },
    }
}

pub open spec fn expr_text(e: ExprModel) -> Seq<char>
    decreases e, 0int,
{
    match e {
        ExprModel::Identifier(id) => id.0@,
        ExprModel::Literal(l) => literal_text(l),
        ExprModel::Prefix(op, x) => prefix_text(op) + expr_text(*x),
        ExprModel::Infix(op, l, r) => expr_text(*l) + " "@ + infix_text(op) + " "@ + expr_text(*r),
        ExprModel::For(id, start, end, step, body) => "for "@ + id.0@ + " in "@ + expr_text(*start)
            + " to "@ + expr_text(*end) + match step {
            Some(x) => " step "@ + expr_text(*x),
            None => Seq::empty(),
        } + " {"@ + block_text(body) + "}\n"@,
        ExprModel::IfExpr(c, t, f) => "if ("@ + expr_text(*c) + ") {\n"@ + block_text(t) + match f {
            Some(b) => "} else {\n"@ + block_text(b),
            None => Seq::empty(),
        } + "}\n"@,
        ExprModel::FunctionCall(f, args) => expr_text(*f) + "("@ + list_text(args) + ")\n"@,
        ExprModel::Array(items) => "["@ + list_text(items) + "]\n"@,
        ExprModel::Hash(pairs) => "{"@ + pairs_text(pairs) + "}\n"@,
        ExprModel::Index(a, i) => expr_text(*a) + "["@ + expr_text(*i) + "]"@,
    }
}

/// Expressions separated by `, `.
pub open spec fn list_text(s: Seq<ExprModel>) -> Seq<char>
    decreases s, 1int,
{
    if s.len() == 0 {
        Seq::empty()
    } else if s.len() == 1 {
        expr_text(s[0])
    } else {
        list_text(s.drop_last()) + ", "@ + expr_text(s.last())
    }
}

pub open spec fn pair_text(k: Literal, v: ExprModel) -> Seq<char>
    decreases v, 1int,
{
    literal_text(k) + ": "@ + expr_text(v)
}

/// Pairs each followed by `, ` and a line break.
pub open spec fn pairs_lead(s: Seq<(Literal, ExprModel)>) -> Seq<char>
    decreases s, 2int,
{
    if s.len() == 0 {
        Seq::empty()
    } else {
        pairs_lead(s.drop_last()) + pair_text(s.last().0, s.last().1) + ", \n"@
    }
}

/// One pair per line, each but the last followed by `, `.
pub open spec fn pairs_text(s: Seq<(Literal, ExprModel)>) -> Seq<char>
    decreases s, 3int,
{
    if s.len() == 0 {
        Seq::empty()
    } else {
        pairs_lead(s.drop_last()) + pair_text(s.last().0, s.last().1) + "\n"@
    }
}

pub open spec fn stmt_text(st: StmtModel) -> Seq<char>
    decreases st, 0int,
{
    match st {
        StmtModel::Let(id, e) => "let "@ + id.0@ + " = "@ + expr_text(e) + ";\n"@,
        StmtModel::Return(Some(e)) => "return "@ + expr_text(e) + ";\n"@,
        StmtModel::Return(None) => "return;\n"@,
        StmtModel::Expression(e) => expr_text(e) + ";\n"@,
    }
}

/// Each statement followed by a line break.
pub open spec fn block_text(s: Seq<StmtModel>) -> Seq<char>
    decreases s, 1int,
{
    if s.len() == 0 {
        Seq::empty()
    } else {
        block_text(s.drop_last()) + stmt_text(s.last()) + "\n"@
    }
}

proof fn lemma_list_text_push(s: Seq<ExprModel>, x: ExprModel)
    ensures
        list_text(s.push(x)) == if s.len() == 0 {
            expr_text(x)
        } else {
            list_text(s) + ", "@ + expr_text(x)
        },
{
    assert(s.push(x).drop_last() =~= s);
}

proof fn lemma_pairs_lead_push(s: Seq<(Literal, ExprModel)>, k: Literal, v: ExprModel)
    ensures
        pairs_lead(s.push((k, v))) == pairs_lead(s) + pair_text(k, v) + ", \n"@,
{
    assert(s.push((k, v)).drop_last() =~= s);
}

proof fn lemma_block_text_push(s: Seq<StmtModel>, st: StmtModel)
    ensures
        block_text(s.push(st)) == block_text(s) + stmt_text(st) + "\n"@,
{
    assert(s.push(st).drop_last() =~= s);
}

fn write_expr(out: &mut String, e: &Expression)
    ensures
        final(out)@ == old(out)@ + expr_text(expr_view(*e)),
    decreases e, 0int,
{
    let ghost start = out@;
    match e {
        Expression::Identifier(id) => out.append(id.0.as_str()),
        Expression::Literal(l) => append_literal(out, l),
        Expression::Prefix(op, x) => {
            out.append(match op {
                Prefix::Negate => "-",
                Prefix::Bitflip => "!",
            });
            write_expr(out, x);
        },
        Expression::Infix(op, l, r) => {
            write_expr(out, l);
            out.append(" ");
            out.append(match op {
                Infix::Add => "+",
                Infix::Subtract => "-",
                Infix::Multiply => "*",
                Infix::Divide => "/",
                Infix::Equal => "==",
                Infix::NotEqual => "!=",
                Infix::GreaterThan => ">",
                Infix::GreaterThanOrEqual => ">=",
                Infix::LessThan => "<",
                Infix::LessThanOrEqual => "<=",
            });
            out.append(" ");
            write_expr(out, r);
        },
        Expression::For(id, start_e, end_e, step, body) => {
            out.append("for ");
            out.append(id.0.as_str());
            out.append(" in ");
            write_expr(out, start_e);
            out.append(" to ");
            write_expr(out, end_e);
            match step {
                Some(x) => {
                    out.append(" step ");
                    write_expr(out, x);
                },
                None => {},
            }
            out.append(" {");
            write_block(out, &body.0);
            out.append("}\n");
        },
        Expression::IfExpr(c, t, f) => {
            out.append("if (");
            write_expr(out, c);
            out.append(") {\n");
            write_block(out, &t.0);
            match f {
                Some(b) => {
                    out.append("} else {\n");
                    write_block(out, &b.0);
                },
                None => {},
            }
            out.append("}\n");
        },
        Expression::FunctionCall(f, args) => {
            write_expr(out, f);
            out.append("(");
            write_list(out, args);
            out.append(")\n");
        },
        Expression::Array(items) => {
            out.append("[");
            write_list(out, items);
            out.append("]\n");
        },
        Expression::Hash(pairs) => {
            out.append("{");
            write_pairs(out, pairs);
            out.append("}\n");
        },
        Expression::Index(a, i) => {
            write_expr(out, a);
            out.append("[");
            write_expr(out, i);
            out.append("]");
        },
    }
    assert(out@ =~= start + expr_text(expr_view(*e)));
}

fn write_list(out: &mut String, items: &Vec<Expression>)
    ensures
        final(out)@ == old(out)@ + list_text(exprs_view(items@)),
    decreases items, 1int,
{
    let ghost start = out@;
    let mut i: usize = 0;
    while i < items.len()
        invariant
            i <= items@.len(),
            out@ == start + list_text(exprs_view(items@.take(i as int))),
        decreases items@.len() - i,
    {
        let ghost before = out@;
        if i > 0 {
            out.append(", ");
        }
        write_expr(out, &items[i]);
        proof {
            assert(items@.take(i + 1) =~= items@.take(i as int).push(items@[i as int]));
            lemma_exprs_view_push(items@.take(i as int), items@[i as int]);
            lemma_list_text_push(exprs_view(items@.take(i as int)), expr_view(items@[i as int]));
            assert(out@ =~= start + list_text(exprs_view(items@.take(i + 1))));
        }
        i = i + 1;
    }
    assert(items@.take(i as int) =~= items@);
}

fn write_pairs(out: &mut String, pairs: &Vec<(Literal, Expression)>)
    ensures
        final(out)@ == old(out)@ + pairs_text(pairs_view(pairs@)),
    decreases pairs, 1int,
{
    let ghost start = out@;
    let n = pairs.len();
    if n == 0 {
        return;
    }
    let mut i: usize = 0;
    while i + 1 < n
        invariant
            n == pairs@.len(),
            n > 0,
            i < n,
            out@ == start + pairs_lead(pairs_view(pairs@.take(i as int))),
        decreases n - i,
    {
        append_literal(out, &pairs[i].0);
        out.append(": ");
        write_expr(out, &pairs[i].1);
        out.append(", \n");
        proof {
            let p = pairs@[i as int];
            assert(pairs@.take(i + 1) =~= pairs@.take(i as int).push((p.0, p.1)));
            lemma_pairs_view_push(pairs@.take(i as int), p.0, p.1);
            lemma_pairs_lead_push(pairs_view(pairs@.take(i as int)), p.0, expr_view(p.1));
            assert(out@ =~= start + pairs_lead(pairs_view(pairs@.take(i + 1))));
        }
        i = i + 1;
    }
    append_literal(out, &pairs[i].0);
    out.append(": ");
    write_expr(out, &pairs[i].1);
    out.append("\n");
    proof {
        let p = pairs@[i as int];
        assert(pairs@ =~= pairs@.take(i as int).push((p.0, p.1)));
        lemma_pairs_view_push(pairs@.take(i as int), p.0, p.1);
        assert(pairs_view(pairs@).drop_last() =~= pairs_view(pairs@.take(i as int)));
        assert(out@ =~= start + pairs_text(pairs_view(pairs@)));
    }
}

fn write_stmt(out: &mut String, st: &Statement)
    ensures
        final(out)@ == old(out)@ + stmt_text(stmt_view(*st)),
    decreases st, 0int,
{
    let ghost start = out@;
    match st {
        Statement::Let(id, e) => {
            out.append("let ");
            out.append(id.0.as_str());
            out.append(" = ");
            write_expr(out, e);
            out.append(";\n");
        },
        Statement::Return(Some(e)) => {
            out.append("return ");
            write_expr(out, e);
            out.append(";\n");
        },
        Statement::Return(None) => {
            out.append("return;\n");
        },
        Statement::Expression(e) => {
            write_expr(out, e);
            out.append(";\n");
        },
    }
    assert(out@ =~= start + stmt_text(stmt_view(*st)));
}

fn write_block(out: &mut String, stmts: &Vec<Statement>)
    ensures
        final(out)@ == old(out)@ + block_text(stmts_view(stmts@)),
    decreases stmts, 1int,
{
    let ghost start = out@;
    let mut i: usize = 0;
    while i < stmts.len()
        invariant
            i <= stmts@.len(),
            out@ == start + block_text(stmts_view(stmts@.take(i as int))),
        decreases stmts@.len() - i,
    {
        write_stmt(out, &stmts[i]);
        out.append("\n");
        proof {
            assert(stmts@.take(i + 1) =~= stmts@.take(i as int).push(stmts@[i as int]));
            lemma_stmts_view_push(stmts@.take(i as int), stmts@[i as int]);
            lemma_block_text_push(stmts_view(stmts@.take(i as int)), stmt_view(stmts@[i as int]));
            assert(out@ =~= start + block_text(stmts_view(stmts@.take(i + 1))));
        }
        i = i + 1;
    }
    assert(stmts@.take(i as int) =~= stmts@);
}

impl Block {
    /// The block as text: each statement followed by an empty line.
    pub fn to_string(&self) -> (r: String)
        ensures
            r@ == block_text(stmts_view(self.0@)),
    {
        let mut out = String::new();
        write_block(&mut out, &self.0);
        out
    }
}

impl Statement {
    pub fn to_string(&self) -> (r: String)
        ensures
            r@ == stmt_text(stmt_view(*self)),
    {
        let mut out = String::new();
        write_stmt(&mut out, self);
        out
    }
}

impl Expression {
    pub fn to_string(&self) -> (r: String)
        ensures
            r@ == expr_text(expr_view(*self)),
    {
        let mut out = String::new();
        write_expr(&mut out, self);
        out
    }
}

impl Identifier {
    pub fn to_string(&self) -> (r: String)
        ensures
            r@ == self.0@,
    {
        self.0.clone()
    }
}

impl Literal {
    pub fn to_string(&self) -> (r: String)
        ensures
            r@ == literal_text(*self),
    {
        let mut out = String::new();
        append_literal(&mut out, self);
        out
    }
}

impl Prefix {
    pub fn to_string(&self) -> (r: String)
        ensures
            r@ == prefix_text(*self),
    {
        String::from_str(
            match self {
                Prefix::Negate => "-",
                Prefix::Bitflip => "!",
            },
        )
    }
}

impl Infix {
    pub fn to_string(&self) -> (r: String)
        ensures
            r@ == infix_text(*self),
    {
        String::from_str(
            match self {
                Infix::Add => "+",
                Infix::Subtract => "-",
                Infix::Multiply => "*",
                Infix::Divide => "/",
                Infix::Equal => "==",
                Infix::NotEqual => "!=",
                Infix::GreaterThan => ">",
                Infix::GreaterThanOrEqual => ">=",
                Infix::LessThan => "<",
                Infix::LessThanOrEqual => "<=",
            },
        )
    }
}

} // verus!
