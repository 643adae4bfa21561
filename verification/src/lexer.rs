//! The lexer: source text in, tokens out, one at a time and up to the first
//! error.

use crate::chars::{
    ascii_digit, ascii_letter, ident_char, lemma_classes, number_char, symbol_char, whitespace,
};
use crate::cursor::Cursor;
use crate::errors::{TokenError, TokenErrorView};
use crate::keyword::{keyword_of, lemma_keyword_round_trip};
use crate::op::{lemma_symbol_table_round_trip, symbol_of};
use crate::sub_parsers::{
    count_points, lemma_run_end, lemma_run_end_is_maximal, lemma_symbol_end, number_token, run_end, symbol_end, symbol_token,
    token_result_view, word_token, CharClass, NumberParser, OpCodeParser, WhitespaceParser,
    WordParser,
};
use crate::token::{ImmediateView, NumberView, Spanned, Token, TokenView};
use vstd::prelude::*;

verus! {

/// The lexeme that begins at `p`, where a character that is no blank stands,
/// and the place where it ends. The classifiers are asked in the order word,
/// number, symbol; a character that none of them claims is an error.
pub open spec fn lexeme_at(src: Seq<char>, p: int) -> (Result<TokenView, TokenErrorView>, int) {
    let c = src[p];
    if ident_char(c, true) {
        let e = run_end(src, p, CharClass::Word);
        (Ok(word_token(src.subrange(p, e))), e)
    } else if ascii_digit(c) {
        let e = run_end(src, p, CharClass::Number);
        (number_token(src.subrange(p, e)), e)
    } else if symbol_char(c) {
        let e = symbol_end(src, p, p);
        (symbol_token(src, p, src.subrange(p, e)), e)
    } else {
        (Err(TokenErrorView::UnexpectedChar(c)), p)
    }
}

/// What lexing `src` from `pos` on yields: blank space is skipped, then one
/// lexeme after the other is read. The first error ends the sequence.
pub open spec fn tokens_from(src: Seq<char>, pos: int) -> Seq<Result<TokenView, TokenErrorView>>
    decreases src.len() - pos,
{
    let p = run_end(src, pos, CharClass::Blank);
    if 0 <= pos <= p < src.len() {
        let (r, e) = lexeme_at(src, p);
        if r is Ok && p < e <= src.len() {
            seq![r] + tokens_from(src, e)
        } else {
            seq![r]
        }
    } else {
        Seq::empty()
    }
}

/// A lexeme that is no error is not empty, ends inside the text, and is as
/// long as the canonical text of its token.
pub proof fn lemma_lexeme_span(src: Seq<char>, p: int)
    requires
        0 <= p < src.len(),
    ensures
        p <= lexeme_at(src, p).1 <= src.len(),
        lexeme_at(src, p).0 matches Ok(t) ==> {
            &&& lexeme_at(src, p).1 > p
            &&& t.len() == lexeme_at(src, p).1 - p
        },
{
    let c = src[p];
    lemma_classes(c);
    lemma_run_end_is_maximal(src, p, CharClass::Word);
    lemma_run_end_is_maximal(src, p, CharClass::Number);
    lemma_symbol_end(src, p);
    let (r, e) = lexeme_at(src, p);
    let text = src.subrange(p, e);
    if ident_char(c, true) {
        assert(run_end(src, p, CharClass::Word) == run_end(src, p + 1, CharClass::Word));
        lemma_run_end_is_maximal(src, p + 1, CharClass::Word);
        if let TokenView::Keyword(k) = word_token(text) {
            lemma_keyword_round_trip(k, text);
        }
    } else if ascii_digit(c) {
        assert(run_end(src, p, CharClass::Number) == run_end(src, p + 1, CharClass::Number));
        lemma_run_end_is_maximal(src, p + 1, CharClass::Number);
    } else if symbol_char(c) {
        if let Some(op) = symbol_of(text) {
            lemma_symbol_table_round_trip(op, text);
        }
    }
}

/// Fail-fast: an error is the last item of what lexing yields.
pub proof fn lemma_error_is_last(src: Seq<char>, pos: int, i: int)
    requires
        0 <= i < tokens_from(src, pos).len(),
        tokens_from(src, pos)[i] is Err,
    ensures
        i == tokens_from(src, pos).len() - 1,
    decreases src.len() - pos,
{
    let p = run_end(src, pos, CharClass::Blank);
    let (r, e) = lexeme_at(src, p);
    if r is Ok && p < e <= src.len() {
        lemma_error_is_last(src, e, i - 1);
    }
}

/// Blank space before a lexeme changes nothing: if only blank space stands
/// between `pos` and `p`, lexing from `pos` yields what lexing from `p` does.
pub proof fn lemma_leading_blank_is_skipped(src: Seq<char>, pos: int, p: int)
    requires
        0 <= pos <= p <= src.len(),
        forall|i: int| pos <= i < p ==> whitespace(#[trigger] src[i]),
    ensures
        tokens_from(src, pos) == tokens_from(src, p),
{
    lemma_blank_run_joins(src, pos, p);
    lemma_run_end_is_maximal(src, p, CharClass::Blank);
}

/// A run of blank space that begins inside another one ends where that one ends.
proof fn lemma_blank_run_joins(src: Seq<char>, pos: int, p: int)
    requires
        0 <= pos <= p <= src.len(),
        forall|i: int| pos <= i < p ==> whitespace(#[trigger] src[i]),
    ensures
        run_end(src, pos, CharClass::Blank) == run_end(src, p, CharClass::Blank),
    decreases p - pos,
{
    if pos < p {
        lemma_blank_run_joins(src, pos + 1, p);
    }
}

/// Blank space alone yields no token and no error.
pub proof fn lemma_blank_yields_nothing(src: Seq<char>, pos: int)
    requires
        0 <= pos <= src.len(),
        forall|i: int| pos <= i < src.len() ==> whitespace(#[trigger] src[i]),
    ensures
        tokens_from(src, pos).len() == 0,
{
    lemma_run_end_is_maximal(src, pos, CharClass::Blank);
}

/// A text of ASCII letters, digits and underscores that does not begin with
/// a digit and spells no reserved word is lexed as one identifier, which
/// spans the whole text.
pub proof fn lemma_word_is_one_identifier(s: Seq<char>)
    requires
        s.len() > 0,
        forall|i: int|
            0 <= i < s.len() ==> ascii_letter(#[trigger] s[i]) || ascii_digit(s[i]) || s[i] == '_',
        !ascii_digit(s[0]),
        keyword_of(s).is_none(),
    ensures
        tokens_from(s, 0) == seq![Ok::<TokenView, TokenErrorView>(TokenView::Identifier(s))],
{
    lemma_classes(s[0]);
    assert forall|i: int| 0 <= i < s.len() implies CharClass::Word.holds(#[trigger] s[i]) by {
        lemma_classes(s[i]);
    }
    lemma_run_end(s, 0, s.len() as int, CharClass::Word);
    assert(s.subrange(0, s.len() as int) =~= s);
    assert(tokens_from(s, s.len() as int) =~= Seq::empty());
    assert(tokens_from(s, 0) =~= seq![Ok::<TokenView, TokenErrorView>(TokenView::Identifier(s))]);
}

/// A text of ASCII digits and points that begins with a digit is lexed as
/// one item, which spans the whole text: an integer if it holds no point, a
/// float if it holds one, and the error for a number that is not valid if it
/// holds more.
pub proof fn lemma_digits_are_one_number(s: Seq<char>)
    requires
        s.len() > 0,
        ascii_digit(s[0]),
        forall|i: int| 0 <= i < s.len() ==> number_char(#[trigger] s[i]),
    ensures
        tokens_from(s, 0) == seq![number_token(s)],
        count_points(s) == 0 ==> number_token(s) == Ok::<TokenView, TokenErrorView>(
            TokenView::Immediate(ImmediateView::Number(NumberView::I32(s))),
        ),
        count_points(s) == 1 ==> number_token(s) == Ok::<TokenView, TokenErrorView>(
            TokenView::Immediate(ImmediateView::Number(NumberView::F32(s))),
        ),
        count_points(s) >= 2 ==> number_token(s) == Err::<TokenView, TokenErrorView>(
            TokenErrorView::NotValidNumber(s),
        ),
{
    lemma_classes(s[0]);
    lemma_run_end(s, 0, s.len() as int, CharClass::Number);
    assert(s.subrange(0, s.len() as int) =~= s);
    assert(tokens_from(s, s.len() as int) =~= Seq::empty());
    assert(tokens_from(s, 0) =~= seq![number_token(s)]);
}

/// Longest match: where a symbol is read at `p`, no longer text that begins
/// at `p` is in the symbol table, and the token is the symbol that the text
/// read spells.
pub proof fn lemma_symbol_is_longest_match(src: Seq<char>, p: int, e: int)
    requires
        0 <= p < src.len(),
        !ident_char(src[p], true),
        !ascii_digit(src[p]),
        symbol_char(src[p]),
        lexeme_at(src, p).1 < e <= src.len(),
    ensures
        symbol_of(src.subrange(p, e)).is_none(),
        lexeme_at(src, p).0 matches Ok(t) ==> t == TokenView::Op(
            symbol_of(src.subrange(p, lexeme_at(src, p).1))->0,
        ),
{
    crate::sub_parsers::lemma_symbol_end_is_longest(src, p, e);
}

/// Every character that is no blank starts a word, a number or a symbol:
/// no text makes the lexer meet a character that no classifier claims.
pub proof fn lemma_every_character_is_claimed(src: Seq<char>, p: int)
    requires
        0 <= p < src.len(),
    ensures
        !(lexeme_at(src, p).0 matches Err(TokenErrorView::UnexpectedChar(_))) || whitespace(src[p]),
{
    lemma_classes(src[p]);
}

/// What an item of the lexer's output is in contracts.
pub open spec fn spanned_result_view(r: Result<Spanned<Token>, TokenError>) -> Result<
    TokenView,
    TokenErrorView,
> {
    match r {
        Ok(t) => Ok(t.value@),
        Err(e) => Err(e@),
    }
}

/// A lexer over one source text. It yields the tokens of the text in order
/// and stops for good after the first error.
pub struct Lexer<'a> {
    cursor: Cursor<'a>,
    is_valid: bool,
}

impl<'a> Lexer<'a> {
    /// The cursor of the lexer is in order.
    pub closed spec fn wf(&self) -> bool {
        self.cursor.wf()
    }

    /// The text that is being lexed.
    pub closed spec fn source(&self) -> Seq<char> {
        self.cursor.source()
    }

    /// What the lexer has yet to yield.
    pub closed spec fn pending(&self) -> Seq<Result<TokenView, TokenErrorView>> {
        if self.is_valid {
            tokens_from(self.cursor.source(), self.cursor.position())
        } else {
            Seq::empty()
        }
    }

    /// A lexer at the start of `data`.
    pub fn new(data: &'a str) -> (r: Self)
        ensures
            r.wf(),
            r.source() == data@,
            r.pending() == tokens_from(data@, 0),
    {
        Self { cursor: Cursor::new(data), is_valid: true }
    }

    /// Yields the next token with the number of characters that it spans, or
    /// the error that ends the lexing, or nothing when nothing is left.
    pub fn advance_token(&mut self) -> (r: Option<Result<Spanned<Token>, TokenError>>)
        requires
            old(self).wf(),
        ensures
            final(self).wf(),
            final(self).source() == old(self).source(),
            old(self).pending().len() == 0 ==> r.is_none() && final(self).pending().len() == 0,
            old(self).pending().len() > 0 ==> {
                &&& r matches Some(item)
                &&& spanned_result_view(item) == old(self).pending()[0]
                &&& final(self).pending() == old(self).pending().drop_first()
            },
            r matches Some(Ok(t)) ==> t.len == t.value@.len(),
            r matches Some(Err(_)) ==> final(self).pending().len() == 0,
    {
        if !self.is_valid {
            return None;
        }
        let ghost src = self.cursor.source();
        let ghost pos = self.cursor.position();
        proof {
            self.cursor.lemma_bounds();
            lemma_run_end_is_maximal(src, pos, CharClass::Blank);
        }
        let first = match self.cursor.peek_first() {
            Some(c) => c,
            None => {
                return None;
            },
        };
        let _ = WhitespaceParser::parse(first, &mut self.cursor);
        let ch = match self.cursor.peek_first() {
            Some(c) => c,
            None => {
                return None;
            },
        };
        self.cursor.reset_token_start();
        let ghost p = self.cursor.position();
        proof {
            lemma_lexeme_span(src, p);
        }
        let token = if WordParser::is_relevant(ch) {
            WordParser::parse(ch, &mut self.cursor)
        } else if NumberParser::is_relevant(ch) {
            NumberParser::parse(ch, &mut self.cursor)
        } else if OpCodeParser::is_relevant(ch) {
            OpCodeParser::parse(ch, &mut self.cursor)
        } else {
            Err(TokenError::UnexpectedChar(ch))
        };
        assert(token_result_view(token) == lexeme_at(src, p).0);
        self.is_valid = token.is_ok();
        proof {
            let e = lexeme_at(src, p).1;
            if token is Ok {
                assert((seq![lexeme_at(src, p).0] + tokens_from(src, e)).drop_first()
                    =~= tokens_from(src, e));
            } else {
                assert(seq![lexeme_at(src, p).0].drop_first() =~= Seq::empty());
            }
        }
        match token {
            Ok(value) => Some(Ok(Spanned { value, len: self.cursor.get_current_token_len() })),
            Err(e) => Some(Err(e)),
        }
    }
}

/// Lexes the whole of `data`: all its tokens in order, or the first error.
pub fn tokenize(data: &str) -> (r: Result<Vec<Token>, TokenError>)
    ensures
        match r {
            Ok(tokens) => {
                &&& tokens_from(data@, 0).len() == tokens@.len()
                &&& forall|i: int|
                    0 <= i < tokens@.len() ==> #[trigger] tokens_from(data@, 0)[i] == Ok::<
                        TokenView,
                        TokenErrorView,
                    >(tokens@[i]@)
            },
            Err(e) => {
                &&& tokens_from(data@, 0).len() > 0
                &&& tokens_from(data@, 0).last() == Err::<TokenView, TokenErrorView>(e@)
            },
        },
{
    let mut lexer = Lexer::new(data);
    let mut ans: Vec<Token> = Vec::new();
    let ghost all = tokens_from(data@, 0);
    assert(all.subrange(0, all.len() as int) =~= all);
    loop
        invariant
            lexer.wf(),
            all == tokens_from(data@, 0),
            ans@.len() <= all.len(),
            lexer.pending() == all.subrange(ans@.len() as int, all.len() as int),
            forall|i: int|
                0 <= i < ans@.len() ==> #[trigger] all[i] == Ok::<TokenView, TokenErrorView>(
                    ans@[i]@,
                ),
        decreases lexer.pending().len(),
    {
        let ghost n = ans@.len() as int;
        match lexer.advance_token() {
            None => {
                return Ok(ans);
            },
            Some(Ok(token)) => {
                assert(all.subrange(n, all.len() as int).drop_first() =~= all.subrange(
                    n + 1,
                    all.len() as int,
                ));
                assert(all.subrange(n, all.len() as int)[0] == all[n]);
                ans.push(token.value);
            },
            Some(Err(e)) => {
                assert(all.subrange(n, all.len() as int)[0] == all[n]);
                return Err(e);
            },
        }
    }
}

} // verus!
