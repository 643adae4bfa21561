//! The stream of tokens between lexer and parser, with one item of lookahead.

use crate::errors::TokenError;
use crate::grammar::Lexed;
use crate::lexer::{tokens_from, Lexer};
use crate::op::Op;
use crate::sub_parsers::token_result_view;
use crate::token::{Token, TokenView};
use vstd::prelude::*;

verus! {

/// What the parser sees of an item before it takes it.
#[derive(Debug, Clone, Copy, PartialEq, Eq, Structural)]
pub enum Peeked {
    /// Nothing is left.
    End,
    /// The next item is the error that ended the lexing.
    Failure,
    /// The next item is this symbol.
    Symbol(Op),
    /// The next item is a token that is no symbol.
    Other,
}

/// What is seen of the first of `items`.
pub open spec fn peeked_of(items: Seq<Lexed>) -> Peeked {
    if items.len() == 0 {
        Peeked::End
    } else {
        match items[0] {
            Err(_) => Peeked::Failure,
            Ok(TokenView::Op(op)) => Peeked::Symbol(op),
            Ok(_) => Peeked::Other,
        }
    }
}

/// The tokens of one source text, lexed as they are asked for. One item can
/// be looked at before it is taken.
pub struct TokenStream<'a> {
    lexer: Lexer<'a>,
    peeked: Option<Result<Token, TokenError>>,
}

impl<'a> TokenStream<'a> {
    /// The lexer of the stream is in order.
    pub closed spec fn wf(&self) -> bool {
        self.lexer.wf()
    }

    /// The items that have not been taken yet.
    pub closed spec fn items(&self) -> Seq<Lexed> {
        match self.peeked {
            Some(item) => seq![token_result_view(item)] + self.lexer.pending(),
            None => self.lexer.pending(),
        }
    }

    /// The stream of the tokens of `data`.
    pub fn new(data: &'a str) -> (r: Self)
        ensures
            r.wf(),
            r.items() == tokens_from(data@, 0),
    {
        Self { lexer: Lexer::new(data), peeked: None }
    }

    /// Looks at the next item without taking it.
    pub fn peek(&mut self) -> (r: Peeked)
        requires
            old(self).wf(),
        ensures
            final(self).wf(),
            final(self).items() == old(self).items(),
            r == peeked_of(old(self).items()),
    {
        if self.peeked.is_none() {
            let ghost pending = self.lexer.pending();
            match self.lexer.advance_token() {
                Some(Ok(token)) => {
                    self.peeked = Some(Ok(token.value));
                },
                Some(Err(e)) => {
                    self.peeked = Some(Err(e));
                },
                None => {},
            }
            proof {
                if pending.len() > 0 {
                    assert(seq![pending[0]] + pending.drop_first() =~= pending);
                } else {
                    assert(self.lexer.pending() =~= pending);
                }
            }
        }
        match &self.peeked {
            None => Peeked::End,
            Some(Err(_)) => Peeked::Failure,
            Some(Ok(Token::Op(op))) => Peeked::Symbol(*op),
            Some(Ok(_)) => Peeked::Other,
        }
    }

    /// Takes the next item.
    pub fn next(&mut self) -> (r: Option<Result<Token, TokenError>>)
        requires
            old(self).wf(),
        ensures
            final(self).wf(),
            final(self).items() == crate::grammar::after_first(old(self).items()),
            old(self).items().len() == 0 ==> r.is_none(),
            old(self).items().len() > 0 ==> {
                &&& r matches Some(item)
                &&& token_result_view(item) == old(self).items()[0]
            },
    {
        match self.peeked.take() {
            Some(item) => {
                assert((seq![token_result_view(item)] + self.lexer.pending()).drop_first()
                    =~= self.lexer.pending());
                Some(item)
            },
            None => {
                let ghost pending = self.lexer.pending();
                let got = self.lexer.advance_token();
                proof {
                    if pending.len() == 0 {
                        assert(self.lexer.pending() =~= pending);
                    }
                }
                match got {
                    Some(Ok(token)) => Some(Ok(token.value)),
                    Some(Err(e)) => Some(Err(e)),
                    None => None,
                }
            },
        }
    }
}

} // verus!
