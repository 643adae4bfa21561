//! The classifiers: each owns one class of lexeme, says whether a character
//! starts one, and reads one from a cursor.

use crate::chars::{
    ascii_digit, ident_char, is_ascii_digit, is_ident_char, is_number_char, is_symbol_char,
    is_whitespace, number_char, symbol_char, whitespace,
};
use crate::cursor::{answers, chars_of, Cursor};
use crate::errors::{TokenError, TokenErrorView};
use crate::keyword::{keyword_of, Keyword};
use crate::op::{symbol_of, Op};
use crate::token::{
    Identifier, Immediate, ImmediateView, Number, NumberView, Token, TokenView,
};
use vstd::prelude::*;
use vstd::string::StrSliceExecFns;

verus! {

/// A class of characters of which a lexeme takes a whole run.
pub enum CharClass {
    Blank,
    Word,
    Number,
}

impl CharClass {
    /// Whether `c` is of this class.
    pub open spec fn holds(self, c: char) -> bool {
        match self {
            CharClass::Blank => whitespace(c),
            CharClass::Word => ident_char(c, false),
            CharClass::Number => number_char(c),
        }
    }
}

/// Where the longest run of characters of `class` that begins at `pos` ends.
pub open spec fn run_end(src: Seq<char>, pos: int, class: CharClass) -> int
    decreases src.len() - pos,
{
    if 0 <= pos < src.len() && class.holds(src[pos]) {
        run_end(src, pos + 1, class)
    } else {
        pos
    }
}

/// A run ends at `end` if every character before `end` is of the class and
/// the one at `end`, if there is one, is not.
pub proof fn lemma_run_end(src: Seq<char>, pos: int, end: int, class: CharClass)
    requires
        0 <= pos <= end <= src.len(),
        forall|i: int| pos <= i < end ==> class.holds(#[trigger] src[i]),
        end < src.len() ==> !class.holds(src[end]),
    ensures
        run_end(src, pos, class) == end,
    decreases end - pos,
{
    if pos < end {
        lemma_run_end(src, pos + 1, end, class);
    }
}

/// A run stays inside the text, holds only characters of its class, and
/// cannot be made longer.
pub proof fn lemma_run_end_is_maximal(src: Seq<char>, pos: int, class: CharClass)
    requires
        0 <= pos <= src.len(),
    ensures
        pos <= run_end(src, pos, class) <= src.len(),
        forall|i: int| pos <= i < run_end(src, pos, class) ==> class.holds(#[trigger] src[i]),
        run_end(src, pos, class) < src.len() ==> !class.holds(src[run_end(src, pos, class)]),
    decreases src.len() - pos,
{
    if pos < src.len() && class.holds(src[pos]) {
        lemma_run_end_is_maximal(src, pos + 1, class);
    }
}

/// The token that a word is: the reserved word that it spells, or else an
/// identifier of that name.
pub open spec fn word_token(text: Seq<char>) -> TokenView {
    match keyword_of(text) {
        Some(k) => TokenView::Keyword(k),
        None => TokenView::Identifier(text),
    }
}

/// How many points `text` holds.
pub open spec fn count_points(text: Seq<char>) -> nat
    decreases text.len(),
{
    if text.len() == 0 {
        0
    } else {
        count_points(text.drop_last()) + if text.last() == '.' {
            1nat
        } else {
            0nat
        }
    }
}

/// The token that a run of digits and points is: an integer without a point,
/// a float with one, and an error with more.
pub open spec fn number_token(text: Seq<char>) -> Result<TokenView, TokenErrorView> {
    if count_points(text) == 0 {
        Ok(TokenView::Immediate(ImmediateView::Number(NumberView::I32(text))))
    } else if count_points(text) == 1 {
        Ok(TokenView::Immediate(ImmediateView::Number(NumberView::F32(text))))
    } else {
        Err(TokenErrorView::NotValidNumber(text))
    }
}

/// Where the symbol that begins at `base` ends, when the text from `base` to
/// `pos` is already taken: the text grows by one character for as long as
/// the longer text is in the symbol table.
pub open spec fn symbol_end(src: Seq<char>, base: int, pos: int) -> int
    decreases src.len() - pos,
{
    if 0 <= base <= pos < src.len() && symbol_of(src.subrange(base, pos + 1)).is_some() {
        symbol_end(src, base, pos + 1)
    } else {
        pos
    }
}

/// The token that the text of a symbol is, or the error for a first
/// character that spells no symbol (`text` is then empty).
pub open spec fn symbol_token(src: Seq<char>, pos: int, text: Seq<char>) -> Result<
    TokenView,
    TokenErrorView,
> {
    match symbol_of(text) {
        Some(op) => Ok(TokenView::Op(op)),
        None => Err(
            TokenErrorView::NotValidOp(
                if pos < src.len() {
                    src.subrange(pos, pos + 1)
                } else {
                    Seq::empty()
                },
            ),
        ),
    }
}

/// A symbol is at most two characters long, so a symbol that is read from
/// `pos` ends at most two characters later; what was read is the whole of a
/// symbol unless nothing was read.
pub proof fn lemma_symbol_end(src: Seq<char>, pos: int)
    requires
        0 <= pos <= src.len(),
    ensures
        pos <= symbol_end(src, pos, pos) <= pos + 2,
        symbol_end(src, pos, pos) <= src.len(),
        symbol_end(src, pos, pos) > pos ==> symbol_of(
            src.subrange(pos, symbol_end(src, pos, pos)),
        ).is_some(),
        symbol_end(src, pos, pos) == pos ==> pos == src.len() || symbol_of(
            src.subrange(pos, pos + 1),
        ).is_none(),
{
    reveal_with_fuel(symbol_end, 4);
}

/// Longest match: no text that begins at `pos` and is longer than the symbol
/// read there is in the symbol table.
pub proof fn lemma_symbol_end_is_longest(src: Seq<char>, pos: int, e: int)
    requires
        0 <= pos <= src.len(),
        symbol_end(src, pos, pos) < e <= src.len(),
    ensures
        symbol_of(src.subrange(pos, e)).is_none(),
{
    reveal_with_fuel(symbol_end, 4);
    if symbol_of(src.subrange(pos, e)).is_some() {
        if e == pos + 2 {
            assert(src.subrange(pos, pos + 1) =~= src.subrange(pos, e).subrange(0, 1));
        }
    }
}

/// Reads words: identifiers and reserved words.
pub struct WordParser;

impl WordParser {
    /// Whether `c` may start a word.
    pub fn is_relevant(c: char) -> (r: bool)
        ensures
            r == ident_char(c, true),
    {
        is_ident_char(c, true)
    }

    /// Reads the longest run of word characters and returns the reserved
    /// word that it spells, or else an identifier.
    pub fn parse(_peeked_char: char, cursor: &mut Cursor<'_>) -> (r: Result<Token, TokenError>)
        requires
            old(cursor).wf(),
        ensures
            final(cursor).wf(),
            final(cursor).source() == old(cursor).source(),
            final(cursor).token_start() == old(cursor).token_start(),
            final(cursor).position() == run_end(
                old(cursor).source(),
                old(cursor).position(),
                CharClass::Word,
            ),
            r matches Ok(t) && t@ == word_token(
                old(cursor).source().subrange(old(cursor).position(), final(cursor).position()),
            ),
    {
        let begin = cursor.offset();
        proof {
            cursor.lemma_bounds();
        }
        let accept = |c: char| -> (b: bool)
            ensures
                b == ident_char(c, false),
        {
            is_ident_char(c, false)
        };
        cursor.advance_while(accept);
        proof {
            cursor.lemma_bounds();
            lemma_run_end(
                cursor.source(),
                begin as int,
                cursor.position(),
                CharClass::Word,
            );
        }
        let text = cursor.string().substring_char(begin, cursor.offset());
        match Keyword::try_from(text) {
            Ok(keyword) => Ok(Token::Keyword(keyword)),
            Err(_) => Ok(Token::Identifier(Identifier::new(text.to_owned()))),
        }
    }
}

/// Reads number literals.
pub struct NumberParser;

impl NumberParser {
    /// Whether `c` may start a number: only a digit does, a point does not.
    pub fn is_relevant(c: char) -> (r: bool)
        ensures
            r == ascii_digit(c),
    {
        is_ascii_digit(c)
    }

    /// How many points `text` holds.
    pub fn count_points(text: &str) -> (n: usize)
        ensures
            n == count_points(text@),
    {
        let chars = chars_of(text);
        let mut n: usize = 0;
        let mut i: usize = 0;
        while i < chars.len()
            invariant
                i <= chars.len(),
                n <= i,
                chars@ == text@,
                n == count_points(chars@.subrange(0, i as int)),
            decreases chars.len() - i,
        {
            assert(chars@.subrange(0, i + 1).drop_last() =~= chars@.subrange(0, i as int));
            if chars[i] == '.' {
                n = n + 1;
            }
            i = i + 1;
        }
        assert(chars@.subrange(0, i as int) =~= chars@);
        n
    }

    /// Reads the longest run of digits and points and returns the number
    /// that it spells: an integer without a point, a float with one. A run
    /// with more points is no number.
    pub fn parse(_peeked_char: char, cursor: &mut Cursor<'_>) -> (r: Result<Token, TokenError>)
        requires
            old(cursor).wf(),
        ensures
            final(cursor).wf(),
            final(cursor).source() == old(cursor).source(),
            final(cursor).token_start() == old(cursor).token_start(),
            final(cursor).position() == run_end(
                old(cursor).source(),
                old(cursor).position(),
                CharClass::Number,
            ),
            token_result_view(r) == number_token(
                old(cursor).source().subrange(old(cursor).position(), final(cursor).position()),
            ),
    {
        let begin = cursor.offset();
        proof {
            cursor.lemma_bounds();
        }
        let accept = |c: char| -> (b: bool)
            ensures
                b == number_char(c),
        {
            is_number_char(c)
        };
        cursor.advance_while(accept);
        proof {
            cursor.lemma_bounds();
            lemma_run_end(
                cursor.source(),
                begin as int,
                cursor.position(),
                CharClass::Number,
            );
        }
        let text = cursor.string().substring_char(begin, cursor.offset());
        let points = Self::count_points(text);
        if points == 0 {
            Ok(Token::Immediate(Immediate::Number(Number::I32(text.to_owned()))))
        } else if points == 1 {
            Ok(Token::Immediate(Immediate::Number(Number::F32(text.to_owned()))))
        } else {
            Err(TokenError::NotValidNumber(text.to_owned()))
        }
    }
}

/// Reads operators and punctuation marks.
pub struct OpCodeParser;

impl OpCodeParser {
    /// Whether `c` may start a symbol.
    pub fn is_relevant(c: char) -> (r: bool)
        ensures
            r == symbol_char(c),
    {
        is_symbol_char(c)
    }

    /// Reads the longest text that the symbol table holds and returns its
    /// symbol. Where the first character spells no symbol, nothing is
    /// consumed and the error carries that character.
    pub fn parse(_peeked_char: char, cursor: &mut Cursor<'_>) -> (r: Result<Token, TokenError>)
        requires
            old(cursor).wf(),
        ensures
            final(cursor).wf(),
            final(cursor).source() == old(cursor).source(),
            final(cursor).token_start() == old(cursor).token_start(),
            final(cursor).position() == symbol_end(
                old(cursor).source(),
                old(cursor).position(),
                old(cursor).position(),
            ),
            token_result_view(r) == symbol_token(
                old(cursor).source(),
                old(cursor).position(),
                old(cursor).source().subrange(old(cursor).position(), final(cursor).position()),
            ),
    {
        let begin = cursor.offset();
        let ghost src = cursor.source();
        proof {
            cursor.lemma_bounds();
        }
        let accept = |s: &str| -> (b: bool)
            ensures
                b == symbol_of(s@).is_some(),
        {
            Op::try_from(s).is_ok()
        };
        cursor.advance_while_inc_str(accept);
        let end = cursor.offset();
        proof {
            cursor.lemma_bounds();
            assert forall|e: int| begin < e <= end implies symbol_of(
                #[trigger] src.subrange(begin as int, e),
            ).is_some() by {
                assert(answers(accept, src.subrange(begin as int, e), true));
            }
            if end < src.len() {
                assert(answers(accept, src.subrange(begin as int, end + 1), false));
            }
            lemma_symbol_steps(src, begin as int, begin as int, end as int);
        }
        let text = cursor.string().substring_char(begin, end);
        match Op::try_from(text) {
            Ok(op) => Ok(Token::Op(op)),
            Err(_) => {
                proof {
                    lemma_symbol_end(src, begin as int);
                }
                let first = if begin < cursor.string().unicode_len() {
                    cursor.string().substring_char(begin, begin + 1)
                } else {
                    cursor.string().substring_char(begin, begin)
                };
                assert(src.subrange(begin as int, begin as int) =~= Seq::<char>::empty());
                Err(TokenError::NotValidOp(first.to_owned()))
            },
        }
    }
}

/// If every text from `base` to a place between `pos` and `end` is in the
/// symbol table and the text one character longer than to `end` is not,
/// the symbol that is read on from `pos` ends at `end`.
proof fn lemma_symbol_steps(src: Seq<char>, base: int, pos: int, end: int)
    requires
        0 <= base <= pos <= end <= src.len(),
        forall|e: int| pos < e <= end ==> symbol_of(#[trigger] src.subrange(base, e)).is_some(),
        end < src.len() ==> symbol_of(src.subrange(base, end + 1)).is_none(),
    ensures
        symbol_end(src, base, pos) == end,
    decreases end - pos,
{
    if pos < end {
        lemma_symbol_steps(src, base, pos + 1, end);
    }
}

/// Skips blank space.
pub struct WhitespaceParser;

impl WhitespaceParser {
    /// Whether `c` is blank space.
    pub fn is_relevant(c: char) -> (r: bool)
        ensures
            r == whitespace(c),
    {
        is_whitespace(c)
    }

    /// Consumes the longest run of blank space and returns how many
    /// characters it held. Blank space makes no token.
    pub fn parse(_peeked_char: char, cursor: &mut Cursor<'_>) -> (n: usize)
        requires
            old(cursor).wf(),
        ensures
            final(cursor).wf(),
            final(cursor).source() == old(cursor).source(),
            final(cursor).token_start() == old(cursor).token_start(),
            final(cursor).position() == run_end(
                old(cursor).source(),
                old(cursor).position(),
                CharClass::Blank,
            ),
            n == final(cursor).position() - old(cursor).position(),
    {
        let ghost begin = cursor.position();
        proof {
            cursor.lemma_bounds();
        }
        let accept = |c: char| -> (b: bool)
            ensures
                b == whitespace(c),
        {
            is_whitespace(c)
        };
        let n = cursor.advance_while(accept);
        proof {
            cursor.lemma_bounds();
            lemma_run_end(cursor.source(), begin, cursor.position(), CharClass::Blank);
        }
        n
    }
}

/// What the result of reading one lexeme is in contracts.
pub open spec fn token_result_view(r: Result<Token, TokenError>) -> Result<
    TokenView,
    TokenErrorView,
> {
    match r {
        Ok(t) => Ok(t@),
        Err(e) => Err(e@),
    }
}

} // verus!
