//! A forward-only reading position in a source text.

use vstd::prelude::*;
use vstd::std_specs::iter::IteratorSpec;
use vstd::string::StrSliceExecFns;

verus! {

broadcast use vstd::string::group_string_axioms;

/// The characters of `s`, in order.
pub fn chars_of(s: &str) -> (v: Vec<char>)
    ensures
        v@ == s@,
{
    let mut it = s.chars();
    let mut v: Vec<char> = Vec::new();
    loop
        invariant
            it.obeys_prophetic_iter_laws(),
            it.decrease() is Some,
            v@ + it.remaining() == s@,
        decreases it.decrease()->0,
    {
        let ghost before = it.remaining();
        match it.next() {
            Some(c) => {
                v.push(c);
                assert(v@ + it.remaining() =~= s@) by {
                    assert(before =~= seq![c] + before.drop_first());
                }
            },
            None => {
                assert(v@ =~= v@ + it.remaining());
                return v;
            },
        }
    }
}

/// `f` may answer `verdict` when it is shown the text `text`.
pub open spec fn answers<F: Fn(&str) -> bool>(f: F, text: Seq<char>, verdict: bool) -> bool {
    exists|s: &str| s@ == text && call_ensures(f, (s,), verdict)
}

/// A source text with a reading position and a mark where the lexeme that
/// is being read began. The position only moves forward.
pub struct Cursor<'a> {
    string: &'a str,
    chars: Vec<char>,
    pos: usize,
    start: usize,
}

impl<'a> Cursor<'a> {
    /// The whole source text.
    pub closed spec fn source(&self) -> Seq<char> {
        self.string@
    }

    /// How many characters have been consumed.
    pub closed spec fn position(&self) -> int {
        self.pos as int
    }

    /// The position at which the mark was last set.
    pub closed spec fn token_start(&self) -> int {
        self.start as int
    }

    /// The mark lies at or before the position, which lies in the text.
    pub closed spec fn wf(&self) -> bool {
        &&& self.chars@ == self.string@
        &&& self.start <= self.pos <= self.chars@.len()
    }

    /// The text that has not been consumed yet.
    pub open spec fn remaining(&self) -> Seq<char> {
        self.source().subrange(self.position(), self.source().len() as int)
    }

    /// The mark, the position and the length of the text are in order, and
    /// the length is one that the machine can count.
    pub proof fn lemma_bounds(&self)
        requires
            self.wf(),
        ensures
            0 <= self.token_start() <= self.position() <= self.source().len() <= usize::MAX,
    {
        assert(self.chars.len() == self.chars@.len());
    }

    /// A cursor at the start of `data`, with the mark there too.
    pub fn new(data: &'a str) -> (r: Self)
        ensures
            r.wf(),
            r.source() == data@,
            r.position() == 0,
            r.token_start() == 0,
    {
        Self { string: data, chars: chars_of(data), pos: 0, start: 0 }
    }

    /// Consumes the next character, if there is one, and returns it.
    pub fn advance(&mut self) -> (r: Option<char>)
        requires
            old(self).wf(),
        ensures
            final(self).wf(),
            final(self).source() == old(self).source(),
            final(self).token_start() == old(self).token_start(),
            old(self).position() < old(self).source().len() ==> {
                &&& r == Some(old(self).source()[old(self).position()])
                &&& final(self).position() == old(self).position() + 1
            },
            old(self).position() >= old(self).source().len() ==> {
                &&& r.is_none()
                &&& final(self).position() == old(self).position()
            },
    {
        if self.pos < self.chars.len() {
            let c = self.chars[self.pos];
            self.pos = self.pos + 1;
            Some(c)
        } else {
            None
        }
    }

    /// The next character, if there is one. Nothing is consumed.
    pub fn peek_first(&mut self) -> (r: Option<char>)
        requires
            old(self).wf(),
        ensures
            final(self).wf(),
            final(self).source() == old(self).source(),
            final(self).position() == old(self).position(),
            final(self).token_start() == old(self).token_start(),
            old(self).position() < old(self).source().len() ==> r == Some(
                old(self).source()[old(self).position()],
            ),
            old(self).position() >= old(self).source().len() ==> r.is_none(),
    {
        if self.pos < self.chars.len() {
            Some(self.chars[self.pos])
        } else {
            None
        }
    }

    /// Sets the mark at the position.
    pub fn reset_token_start(&mut self)
        requires
            old(self).wf(),
        ensures
            final(self).wf(),
            final(self).source() == old(self).source(),
            final(self).position() == old(self).position(),
            final(self).token_start() == old(self).position(),
    {
        self.start = self.pos;
    }

    /// How many characters have been consumed since the mark was set.
    pub fn get_current_token_len(&self) -> (n: usize)
        requires
            self.wf(),
        ensures
            n == self.position() - self.token_start(),
    {
        self.pos - self.start
    }

    /// The position, as a number of characters from the start of the text.
    pub fn offset(&self) -> (n: usize)
        requires
            self.wf(),
        ensures
            n == self.position(),
    {
        self.pos
    }

    /// Consumes the longest run of characters that `f` accepts, and returns
    /// how many there were.
    pub fn advance_while<F: Fn(char) -> bool>(&mut self, f: F) -> (n: usize)
        requires
            old(self).wf(),
            forall|i: int|
                old(self).position() <= i < old(self).source().len() ==> call_requires(
                    f,
                    (#[trigger] old(self).source()[i],),
                ),
        ensures
            final(self).wf(),
            final(self).source() == old(self).source(),
            final(self).token_start() == old(self).token_start(),
            final(self).position() == old(self).position() + n,
            final(self).position() <= old(self).source().len(),
            forall|i: int|
                old(self).position() <= i < final(self).position() ==> call_ensures(
                    f,
                    (#[trigger] old(self).source()[i],),
                    true,
                ),
            final(self).position() < old(self).source().len() ==> call_ensures(
                f,
                (old(self).source()[final(self).position()],),
                false,
            ),
    {
        let ghost src = self.string@;
        let ghost begin = self.pos;
        let mut counter: usize = 0;
        assert(src == old(self).source());
        loop
            invariant
                self.chars@ == src,
                self.string@ == src,
                self.start == old(self).start,
                begin == old(self).pos,
                self.start <= begin,
                self.pos == begin + counter,
                self.pos <= src.len(),
                forall|i: int| begin <= i < src.len() ==> call_requires(f, (#[trigger] src[i],)),
                forall|i: int| begin <= i < self.pos ==> call_ensures(f, (#[trigger] src[i],), true),
            ensures
                self.pos < src.len() ==> call_ensures(f, (src[self.pos as int],), false),
            decreases src.len() - self.pos,
        {
            if self.pos >= self.chars.len() {
                break;
            }
            let c = self.chars[self.pos];
            if !f(c) {
                break;
            }
            self.pos = self.pos + 1;
            counter = counter + 1;
        }
        counter
    }

    /// Consumes characters one at a time for as long as `f` accepts the
    /// text consumed by this call so far together with the next character.
    pub fn advance_while_inc_str<F: Fn(&str) -> bool>(&mut self, f: F)
        requires
            old(self).wf(),
            forall|s: &str| call_requires(f, (s,)),
        ensures
            final(self).wf(),
            final(self).source() == old(self).source(),
            final(self).token_start() == old(self).token_start(),
            old(self).position() <= final(self).position() <= old(self).source().len(),
            forall|e: int|
                old(self).position() < e <= final(self).position() ==> #[trigger] answers(
                    f,
                    old(self).source().subrange(old(self).position(), e),
                    true,
                ),
            final(self).position() < old(self).source().len() ==> answers(
                f,
                old(self).source().subrange(old(self).position(), final(self).position() + 1),
                false,
            ),
    {
        let ghost src = self.string@;
        let base = self.pos;
        loop
            invariant
                self.chars@ == src,
                self.string@ == src,
                self.start == old(self).start,
                base == old(self).pos,
                self.start <= base <= self.pos <= src.len(),
                forall|s: &str| call_requires(f, (s,)),
                forall|e: int|
                    base < e <= self.pos ==> #[trigger] answers(f, src.subrange(base as int, e), true),
            ensures
                self.pos < src.len() ==> answers(
                    f,
                    src.subrange(base as int, self.pos + 1),
                    false,
                ),
            decreases src.len() - self.pos,
        {
            if self.pos >= self.chars.len() {
                break;
            }
            let prefix = self.string.substring_char(base, self.pos + 1);
            let accepted = f(prefix);
            assert(answers(f, src.subrange(base as int, self.pos + 1), accepted));
            if !accepted {
                break;
            }
            self.pos = self.pos + 1;
        }
    }

    /// The whole source text.
    pub fn string(&self) -> (s: &'a str)
        ensures
            s@ == self.source(),
    {
        self.string
    }

    /// The text that has not been consumed yet.
    pub fn remains(&self) -> (s: &'a str)
        requires
            self.wf(),
        ensures
            s@ == self.remaining(),
    {
        self.string.substring_char(self.pos, self.chars.len())
    }
}

} // verus!
