//! Front end of a small expression language: a scanner that turns source
//! text into classified tokens, and a layered recursive-descent parser that
//! builds an expression tree from them.

pub mod chars;
pub mod cursor;
pub mod display;
pub mod errors;
pub mod expressions;
pub mod grammar;
pub mod invariants;
pub mod keyword;
pub mod lexer;
pub mod op;
pub mod parser;
pub mod stream;
pub mod sub_parsers;
pub mod token;
