pub mod ast;
pub mod grammar;
pub mod laws;
pub mod parser;
pub mod render;
pub mod token;

pub use ast::{Block, Error, Expression, Identifier, Infix, Literal, Prefix, Statement};
pub use parser::{parse, parse_expression, Parser};
pub use token::Token;
