use vstd::prelude::*;

verus! {

/// A lexical unit, as the lexer hands it over: numbers and strings arrive
/// already converted.
#[derive(PartialEq, Debug, Clone)]
pub enum Token {
    Let,
    Return,
    For,
    In,
    To,
    Step,
    If,
    Else,
    True,
    False,
    Identifier(String),
    DecimalIntLiteral(i64),
    HexIntLiteral(i64),
    StringLiteral(String),
    Plus,
    Minus,
    Star,
    Slash,
    Bang,
    Assign,
    Equal,
    NotEqual,
    Greater,
    GreaterEqual,
    Less,
    LessEqual,
    LeftParen,
    RightParen,
    LeftBracket,
    RightBracket,
    LeftBrace,
    RightBrace,
    Comma,
    Colon,
    Semicolon,
    EndOfInput,
}

/// The token at `pos`; every position past the end reads as end of input.
pub open spec fn tok_at(ts: Seq<Token>, pos: int) -> Token {
    if 0 <= pos < ts.len() {
        ts[pos]
    } else {
        Token::EndOfInput
    }
}

/// One-token lookahead over a token sequence. Positions are plain indices:
/// advancing is moving to the next index.
pub struct Cursor<'a> {
    tokens: &'a Vec<Token>,
    end: Token,
}

impl<'a> Cursor<'a> {
    pub closed spec fn tokens(&self) -> Seq<Token> {
        self.tokens@
    }

    pub closed spec fn wf(&self) -> bool {
        self.end is EndOfInput
    }

    pub fn new(tokens: &'a Vec<Token>) -> (c: Cursor<'a>)
        ensures
            c.wf(),
            c.tokens() == tokens@,
    {
        Cursor { tokens, end: Token::EndOfInput }
    }

    pub fn len(&self) -> (r: usize)
        ensures
            r == self.tokens().len(),
    {
        self.tokens.len()
    }

    /// The token at `pos`, without consuming it.
    pub fn peek(&self, pos: usize) -> (t: &Token)
        requires
            self.wf(),
        ensures
            *t == tok_at(self.tokens(), pos as int),
            self.tokens().len() <= usize::MAX,
    {
        if pos < self.tokens.len() {
            &self.tokens[pos]
        } else {
            &self.end
        }
    }

    /// Whether `pos` reads as end of input.
    pub fn at_end(&self, pos: usize) -> (r: bool)
        requires
            self.wf(),
        ensures
            r == (tok_at(self.tokens(), pos as int) is EndOfInput),
    {
        match self.peek(pos) {
            Token::EndOfInput => true,
            _ => false,
        }
    }

    /// The token at `pos` and the position after it. End of input is never
    /// consumed: advancing from it stays where it is.
    pub fn advance(&self, pos: usize) -> (r: (&Token, usize))
        requires
            self.wf(),
        ensures
            *r.0 == tok_at(self.tokens(), pos as int),
            r.1 == if r.0 is EndOfInput { pos as int } else { pos + 1 },
    {
        if pos < self.tokens.len() {
            match &self.tokens[pos] {
                Token::EndOfInput => (&self.end, pos),
                t => (t, pos + 1),
            }
        } else {
            (&self.end, pos)
        }
    }
}

} // verus!
