//! The reserved words.

use vstd::prelude::*;
use vstd::string::StrSliceExecFns;

verus! {

/// A reserved word: a word that is never an identifier.
#[derive(Debug, Clone, Copy, PartialEq, Eq, Structural)]
pub enum Keyword {
    Fn,
    Extern,
    Let,
    Return,
}

/// The reserved word that the whole of `s` spells, if any.
pub open spec fn keyword_of(s: Seq<char>) -> Option<Keyword> {
    if s == Keyword::Fn.text() {
        Some(Keyword::Fn)
    } else if s == Keyword::Extern.text() {
        Some(Keyword::Extern)
    } else if s == Keyword::Let.text() {
        Some(Keyword::Let)
    } else if s == Keyword::Return.text() {
        Some(Keyword::Return)
    } else {
        None
    }
}

/// Whether two texts hold the same characters in the same order.
pub fn text_equals(value: &str, text: &str) -> (r: bool)
    ensures
        r == (value@ == text@),
{
    let n = value.unicode_len();
    if n != text.unicode_len() {
        return false;
    }
    let mut i: usize = 0;
    while i < n
        invariant
            i <= n,
            n == value@.len(),
            n == text@.len(),
            forall|j: int| 0 <= j < i ==> value@[j] == text@[j],
        decreases n - i,
    {
        if value.get_char(i) != text.get_char(i) {
            return false;
        }
        i += 1;
    }
    assert(value@ =~= text@);
    true
}

impl Keyword {
    /// The text that spells this word.
    pub open spec fn text(self) -> Seq<char> {
        match self {
            Keyword::Fn => seq!['f', 'n'],
            Keyword::Extern => seq!['e', 'x', 't', 'e', 'r', 'n'],
            Keyword::Let => seq!['l', 'e', 't'],
            Keyword::Return => seq!['r', 'e', 't', 'u', 'r', 'n'],
        }
    }

    /// The word's text.
    pub fn as_str(&self) -> (s: &'static str)
        ensures
            s@ == self.text(),
    {
        match self {
            Keyword::Fn => {
                proof {
                    reveal_strlit("fn");
                }
                assert("fn"@ =~= Keyword::Fn.text());
                "fn"
            },
            Keyword::Extern => {
                proof {
                    reveal_strlit("extern");
                }
                assert("extern"@ =~= Keyword::Extern.text());
                "extern"
            },
            Keyword::Let => {
                proof {
                    reveal_strlit("let");
                }
                assert("let"@ =~= Keyword::Let.text());
                "let"
            },
            Keyword::Return => {
                proof {
                    reveal_strlit("return");
                }
                assert("return"@ =~= Keyword::Return.text());
                "return"
            },
        }
    }

    /// The number of characters in the word.
    pub fn len(&self) -> (n: usize)
        ensures
            n == self.text().len(),
    {
        match self {
            Keyword::Fn => 2,
            Keyword::Extern => 6,
            Keyword::Let => 3,
            Keyword::Return => 6,
        }
    }

    /// Looks `value` up among the reserved words.
    pub fn try_from(value: &str) -> (r: Result<Keyword, ()>)
        ensures
            r.is_ok() == keyword_of(value@).is_some(),
            r matches Ok(k) ==> keyword_of(value@) == Some(k),
    {
        if text_equals(value, Keyword::Fn.as_str()) {
            Ok(Keyword::Fn)
        } else if text_equals(value, Keyword::Extern.as_str()) {
            Ok(Keyword::Extern)
        } else if text_equals(value, Keyword::Let.as_str()) {
            Ok(Keyword::Let)
        } else if text_equals(value, Keyword::Return.as_str()) {
            Ok(Keyword::Return)
        } else {
            Err(())
        }
    }
}

/// Every reserved word is found under its own text, and under no other.
pub proof fn lemma_keyword_round_trip(k: Keyword, s: Seq<char>)
    ensures
        keyword_of(k.text()) == Some(k),
        keyword_of(s) == Some(k) ==> s == k.text(),
{
    assert(Keyword::Fn.text().len() == 2);
    assert(Keyword::Let.text().len() == 3);
    assert(Keyword::Extern.text()[0] == 'e');
    assert(Keyword::Return.text()[0] == 'r');
}

} // verus!
