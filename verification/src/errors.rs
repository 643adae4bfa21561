//! The two families of errors: those of the lexer and those of the parser.

use crate::token::{Token, TokenView};
use vstd::prelude::*;

verus! {

/// What the lexer rejects.
#[derive(Debug, Clone, PartialEq, Eq)]
pub enum TokenError {
    /// A character that starts no lexeme.
    UnexpectedChar(char),
    /// A run of digits and points with more than one point.
    NotValidNumber(String),
    /// Text that the symbol table does not hold.
    NotValidOp(String),
}

/// What a `TokenError` is in contracts.
pub enum TokenErrorView {
    UnexpectedChar(char),
    NotValidNumber(Seq<char>),
    NotValidOp(Seq<char>),
}

impl View for TokenError {
    type V = TokenErrorView;

    open spec fn view(&self) -> TokenErrorView {
        match self {
            TokenError::UnexpectedChar(c) => TokenErrorView::UnexpectedChar(*c),
            TokenError::NotValidNumber(s) => TokenErrorView::NotValidNumber(s@),
            TokenError::NotValidOp(s) => TokenErrorView::NotValidOp(s@),
        }
    }
}

/// What is wrong with a function declaration.
#[derive(Debug, Clone, PartialEq, Eq)]
pub enum FunctionError {
    /// The token after `fn` is no identifier.
    FunctionNameShouldBeIdentifier(Token),
}

/// What a `FunctionError` is in contracts.
pub enum FunctionErrorView {
    FunctionNameShouldBeIdentifier(TokenView),
}

impl View for FunctionError {
    type V = FunctionErrorView;

    open spec fn view(&self) -> FunctionErrorView {
        match self {
            FunctionError::FunctionNameShouldBeIdentifier(t) => {
                FunctionErrorView::FunctionNameShouldBeIdentifier(t@)
            },
        }
    }
}

/// What the parser rejects. A lexical error that the parser meets is
/// carried in `TokenError`, as the lexer gave it.
#[derive(Debug, Clone, PartialEq, Eq)]
pub enum LangErrorKind {
    /// The input ended where a token was required.
    UnexpectedEOF,
    TokenError(TokenError),
    FunctionError(FunctionError),
    /// A token stands where the grammar allows none, or not this one.
    UnexpectedToken(Token),
    /// One given token was required and another one stood there.
    TokenShouldBe { should_be: Token, got: Token },
}

/// What a `LangErrorKind` is in contracts.
pub enum LangErrorView {
    UnexpectedEOF,
    TokenError(TokenErrorView),
    FunctionError(FunctionErrorView),
    UnexpectedToken(TokenView),
    TokenShouldBe { should_be: TokenView, got: TokenView },
}

impl View for LangErrorKind {
    type V = LangErrorView;

    open spec fn view(&self) -> LangErrorView {
        match self {
            LangErrorKind::UnexpectedEOF => LangErrorView::UnexpectedEOF,
            LangErrorKind::TokenError(e) => LangErrorView::TokenError(e@),
            LangErrorKind::FunctionError(e) => LangErrorView::FunctionError(e@),
            LangErrorKind::UnexpectedToken(t) => LangErrorView::UnexpectedToken(t@),
            LangErrorKind::TokenShouldBe { should_be, got } => LangErrorView::TokenShouldBe {
                should_be: should_be@,
                got: got@,
            },
        }
    }
}

} // verus!
