//! Tokens: the classified lexemes that the lexer hands to the parser.

use crate::keyword::Keyword;
use crate::op::Op;
use vstd::prelude::*;
use vstd::string::StrSliceExecFns;

verus! {

/// A name as it stood in the source.
#[derive(Debug, Clone, PartialEq, Eq)]
pub struct Identifier {
    pub name: String,
}

impl View for Identifier {
    type V = Seq<char>;

    open spec fn view(&self) -> Seq<char> {
        self.name@
    }
}

impl Identifier {
    /// An identifier of the name `name`.
    pub fn new(name: String) -> (r: Self)
        ensures
            r@ == name@,
    {
        Self { name }
    }
}

/// A number literal, kept as the text that spelled it.
#[derive(Debug, Clone, PartialEq, Eq)]
pub enum Number {
    I32(String),
    F32(String),
}

/// What a `Number` is in contracts.
pub enum NumberView {
    I32(Seq<char>),
    F32(Seq<char>),
}

impl View for Number {
    type V = NumberView;

    open spec fn view(&self) -> NumberView {
        match self {
            Number::I32(s) => NumberView::I32(s@),
            Number::F32(s) => NumberView::F32(s@),
        }
    }
}

impl NumberView {
    /// The literal's text.
    pub open spec fn text(self) -> Seq<char> {
        match self {
            NumberView::I32(s) => s,
            NumberView::F32(s) => s,
        }
    }
}

impl Number {
    /// The number of characters in the literal.
    pub fn len(&self) -> (n: usize)
        ensures
            n == self@.text().len(),
    {
        match self {
            Number::I32(string) => string.as_str().unicode_len(),
            Number::F32(string) => string.as_str().unicode_len(),
        }
    }
}

/// A literal value.
#[derive(Debug, Clone, PartialEq, Eq)]
pub enum Immediate {
    String(String),
    Number(Number),
}

/// What an `Immediate` is in contracts.
pub enum ImmediateView {
    String(Seq<char>),
    Number(NumberView),
}

impl View for Immediate {
    type V = ImmediateView;

    open spec fn view(&self) -> ImmediateView {
        match self {
            Immediate::String(s) => ImmediateView::String(s@),
            Immediate::Number(n) => ImmediateView::Number(n@),
        }
    }
}

impl ImmediateView {
    /// The length of the literal as it is written: a string with its two quotes.
    pub open spec fn len(self) -> nat {
        match self {
            ImmediateView::String(s) => s.len() + 2,
            ImmediateView::Number(n) => n.text().len(),
        }
    }
}

impl Immediate {
    /// The number of characters that the literal takes in the source.
    pub fn len(&self) -> (n: usize)
        requires
            self@.len() <= usize::MAX,
        ensures
            n == self@.len(),
    {
        match self {
            Immediate::String(string) => string.as_str().unicode_len() + 2,
            Immediate::Number(number) => number.len(),
        }
    }
}

/// A classified lexeme.
#[derive(Debug, Clone, PartialEq, Eq)]
pub enum Token {
    Identifier(Identifier),
    Immediate(Immediate),
    Keyword(Keyword),
    Op(Op),
}

/// What a `Token` is in contracts.
pub enum TokenView {
    Identifier(Seq<char>),
    Immediate(ImmediateView),
    Keyword(Keyword),
    Op(Op),
}

impl View for Token {
    type V = TokenView;

    open spec fn view(&self) -> TokenView {
        match self {
            Token::Identifier(i) => TokenView::Identifier(i@),
            Token::Immediate(i) => TokenView::Immediate(i@),
            Token::Keyword(k) => TokenView::Keyword(*k),
            Token::Op(o) => TokenView::Op(*o),
        }
    }
}

impl TokenView {
    /// The length of the token's canonical text.
    pub open spec fn len(self) -> nat {
        match self {
            TokenView::Identifier(s) => s.len(),
            TokenView::Immediate(i) => i.len(),
            TokenView::Keyword(k) => k.text().len(),
            TokenView::Op(o) => o.text().len(),
        }
    }

    /// The class of the token, without its text.
    pub open spec fn kind(self) -> TokenType {
        match self {
            TokenView::Identifier(_) => TokenType::Identifier,
            TokenView::Immediate(ImmediateView::String(_)) => TokenType::Immediate(
                ImmediateType::String,
            ),
            TokenView::Immediate(ImmediateView::Number(NumberView::I32(_))) => TokenType::Immediate(
                ImmediateType::Number(NumberType::I32),
            ),
            TokenView::Immediate(ImmediateView::Number(NumberView::F32(_))) => TokenType::Immediate(
                ImmediateType::Number(NumberType::F32),
            ),
            TokenView::Keyword(k) => TokenType::Keyword(k),
            TokenView::Op(o) => TokenType::Op(o),
        }
    }
}

impl Token {
    /// The number of characters of the token's canonical text.
    pub fn len(&self) -> (n: usize)
        requires
            self@.len() <= usize::MAX,
        ensures
            n == self@.len(),
    {
        match self {
            Token::Identifier(ident) => ident.name.as_str().unicode_len(),
            Token::Immediate(imm) => imm.len(),
            Token::Keyword(k) => k.len(),
            Token::Op(o) => o.len(),
        }
    }

    /// The class of the token, without its text.
    pub fn token_type(&self) -> (t: TokenType)
        ensures
            t == self@.kind(),
    {
        match self {
            Token::Identifier(_) => TokenType::Identifier,
            Token::Immediate(Immediate::String(_)) => TokenType::Immediate(ImmediateType::String),
            Token::Immediate(Immediate::Number(Number::I32(_))) => TokenType::Immediate(
                ImmediateType::Number(NumberType::I32),
            ),
            Token::Immediate(Immediate::Number(Number::F32(_))) => TokenType::Immediate(
                ImmediateType::Number(NumberType::F32),
            ),
            Token::Keyword(k) => TokenType::Keyword(*k),
            Token::Op(o) => TokenType::Op(*o),
        }
    }
}

/// The class of a token.
#[derive(Debug, Clone, Copy, PartialEq, Eq, Structural)]
pub enum TokenType {
    Identifier,
    Immediate(ImmediateType),
    Keyword(Keyword),
    Op(Op),
}

/// The class of a literal.
#[derive(Debug, Clone, Copy, PartialEq, Eq, Structural)]
pub enum ImmediateType {
    String,
    Number(NumberType),
}

/// The class of a number literal: written without a point, or with one.
#[derive(Debug, Clone, Copy, PartialEq, Eq, Structural)]
pub enum NumberType {
    I32,
    F32,
}

/// A value with the number of source characters that it was read from.
#[derive(Debug, Clone, Copy, PartialEq, Eq)]
pub struct Spanned<T> {
    pub value: T,
    pub len: usize,
}

} // verus!
