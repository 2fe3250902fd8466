//! The input cursor: the text not yet consumed, and behind it the lines that
//! the line source has not handed over yet.

use vstd::prelude::*;
use crate::grammar::Pos;
use crate::scanner::{scanner_while, word_at, CharClass};
use crate::text::{append_chars, chars_of, has_at, matches_at, slice_of, word_is};

verus! {

/// Length of the first line of `s`, its newline included; the whole of `s`
/// where it holds no newline.
pub open spec fn first_line_len(s: Seq<char>) -> nat
    decreases s.len(),
{
    if s.len() == 0 {
        0
    } else if s[0] == '\n' {
        1
    } else {
        1 + first_line_len(s.skip(1))
    }
}

pub proof fn lemma_first_line_len_bounds(s: Seq<char>)
    ensures
        first_line_len(s) <= s.len(),
        s.len() > 0 ==> first_line_len(s) >= 1,
    decreases s.len(),
{
    if s.len() > 0 && s[0] != '\n' {
        lemma_first_line_len_bounds(s.skip(1));
    }
}

pub struct Feeder {
    /// The unconsumed text that parsers look at.
    pub remaining: Vec<char>,
    /// What the line source still holds, line after line.
    pub source: Vec<char>,
}

impl Feeder {
    /// The buffered text.
    pub open spec fn rem(&self) -> Seq<char> {
        self.remaining@
    }

    /// The text still waiting in the line source.
    pub open spec fn src(&self) -> Seq<char> {
        self.source@
    }

    /// Everything that is still to be read: the buffer, then the line source.
    pub open spec fn stream(&self) -> Seq<char> {
        self.remaining@ + self.source@
    }

    /// A cursor over `text` with an exhausted line source.
    pub fn new(text: &str) -> (f: Feeder)
        ensures
            f.rem() == text@,
            f.src() == Seq::<char>::empty(),
    {
        Feeder { remaining: chars_of(text), source: Vec::new() }
    }

    /// A cursor over `text` whose line source will hand out `more` line by line.
    pub fn with_source(text: &str, more: &str) -> (f: Feeder)
        ensures
            f.rem() == text@,
            f.src() == more@,
    {
        Feeder { remaining: chars_of(text), source: chars_of(more) }
    }

    /// Puts `line` at the end of what the line source holds.
    pub fn supply(&mut self, line: &str)
        ensures
            final(self).rem() == old(self).rem(),
            final(self).src() == old(self).src() + line@,
    {
        let extra = chars_of(line);
        append_chars(&mut self.source, &extra);
    }

    /// Number of buffered characters.
    pub fn len(&self) -> (n: usize)
        ensures
            n == self.rem().len(),
    {
        self.remaining.len()
    }

    /// The buffered character at index `i`.
    pub fn nth(&self, i: usize) -> (c: char)
        requires
            i < self.rem().len(),
        ensures
            c == self.rem()[i as int],
    {
        self.remaining[i]
    }

    /// Whether the buffer holds `literal` at `offset`. Nothing is consumed.
    pub fn compare(&self, offset: usize, literal: &str) -> (b: bool)
        ensures
            b == matches_at(self.rem(), offset as int, literal@),
    {
        has_at(&self.remaining, offset, literal)
    }

    /// Whether the buffer begins with `literal`. Nothing is consumed.
    pub fn starts_with(&self, literal: &str) -> (b: bool)
        ensures
            b == matches_at(self.rem(), 0, literal@),
    {
        has_at(&self.remaining, 0, literal)
    }

    /// Removes the first `n` buffered characters and returns them. Where fewer
    /// than `n` are buffered nothing is removed and the result is empty.
    pub fn consume(&mut self, n: usize) -> (taken: Vec<char>)
        ensures
            final(self).src() == old(self).src(),
            n <= old(self).rem().len() ==> taken@ == old(self).rem().subrange(0, n as int)
                && final(self).rem() == old(self).rem().skip(n as int),
            n > old(self).rem().len() ==> taken@ == Seq::<char>::empty() && final(self).rem()
                == old(self).rem(),
            taken@ + final(self).stream() == old(self).stream(),
    {
        if n > self.remaining.len() {
            assert(Seq::<char>::empty() + self.stream() =~= self.stream());
            return Vec::new();
        }
        let taken = slice_of(&self.remaining, 0, n);
        let rest = slice_of(&self.remaining, n, self.remaining.len());
        proof {
            assert(rest@ =~= self.remaining@.skip(n as int));
            assert(taken@ + (rest@ + self.source@) =~= self.remaining@ + self.source@);
        }
        self.remaining = rest;
        taken
    }

    /// Whether the word that starts at `offset` is `literal`. Nothing is
    /// consumed.
    pub fn at_word(&self, offset: usize, literal: &str) -> (b: bool)
        ensures
            b == (offset <= self.rem().len() && word_at(self.rem(), offset as int) == literal@),
    {
        if offset > self.remaining.len() {
            return false;
        }
        let w: usize = scanner_while(&self.remaining, offset, CharClass::Word);
        word_is(&self.remaining, offset, offset + w, literal)
    }

    /// Consumes the buffer up to the end of the word that starts at `offset`,
    /// where that word is `literal`; else nothing.
    pub fn accept(&mut self, offset: usize, literal: &str) -> (taken: Option<Vec<char>>)
        ensures
            final(self).src() == old(self).src(),
            taken is Some <==> offset <= old(self).rem().len() && word_at(
                old(self).rem(),
                offset as int,
            ) == literal@,
            taken is None ==> final(self).rem() == old(self).rem(),
            taken matches Some(t) ==> {
                &&& offset + literal@.len() <= old(self).rem().len()
                &&& t@ == old(self).rem().subrange(0, offset + literal@.len())
                &&& t@ == old(self).rem().subrange(0, offset as int) + literal@
                &&& final(self).rem() == old(self).rem().skip(offset + literal@.len())
                &&& t@ + final(self).stream() == old(self).stream()
            },
    {
        if !self.at_word(offset, literal) {
            return None;
        }
        let total: usize = self.remaining.len();
        let w: usize = scanner_while(&self.remaining, offset, CharClass::Word);
        assert(offset + w <= total);
        assert(self.remaining@.subrange(0, offset + w) =~= self.remaining@.subrange(
            0,
            offset as int,
        ) + word_at(self.remaining@, offset as int));
        Some(self.consume(offset + w))
    }

    /// The place where the cursor stands.
    pub open spec fn pos(&self) -> Pos {
        Pos { rem: self.remaining@, src: self.source@ }
    }

    /// Whether two cursors stand at the same place of the same input.
    pub open spec fn same_as(&self, other: &Feeder) -> bool {
        self.rem() == other.rem() && self.src() == other.src()
    }

    /// A copy of the cursor, to come back to after a failed attempt.
    pub fn snapshot(&self) -> (f: Feeder)
        ensures
            f.rem() == self.rem(),
            f.src() == self.src(),
    {
        let r = slice_of(&self.remaining, 0, self.remaining.len());
        let s = slice_of(&self.source, 0, self.source.len());
        proof {
            assert(self.remaining@.subrange(0, self.remaining@.len() as int) =~= self.remaining@);
            assert(self.source@.subrange(0, self.source@.len() as int) =~= self.source@);
        }
        Feeder { remaining: r, source: s }
    }

    /// Puts the cursor back to where `snapshot` was taken.
    pub fn rewind(&mut self, snapshot: Feeder)
        ensures
            final(self).rem() == snapshot.rem(),
            final(self).src() == snapshot.src(),
    {
        self.remaining = snapshot.remaining;
        self.source = snapshot.source;
    }

    /// Asks the line source for one more line and puts it at the end of the
    /// buffer. Returns `false`, and changes nothing, where the source is
    /// exhausted.
    pub fn acquire_more_input(&mut self) -> (got: bool)
        ensures
            got == (old(self).src().len() > 0),
            final(self).rem() == old(self).rem() + old(self).src().subrange(
                0,
                first_line_len(old(self).src()) as int,
            ),
            final(self).src() == old(self).src().skip(first_line_len(old(self).src()) as int),
            final(self).stream() == old(self).stream(),
            got ==> final(self).src().len() < old(self).src().len(),
    {
        proof {
            lemma_first_line_len_bounds(self.source@);
            assert(self.source@.skip(0) =~= self.source@);
        }
        let n: usize = self.source.len();
        let mut k: usize = 0;
        let mut done: bool = false;
        while k < n && !done
            invariant
                k <= n,
                n == self.source@.len(),
                done ==> k >= 1 && self.source@[k - 1] == '\n',
                first_line_len(self.source@) == k + (if done {
                    0
                } else {
                    first_line_len(self.source@.skip(k as int))
                }),
            decreases n - k,
        {
            proof {
                let t = self.source@.skip(k as int);
                assert(t[0] == self.source@[k as int]);
                assert(t.skip(1) =~= self.source@.skip(k + 1));
            }
            if self.source[k] == '\n' {
                done = true;
            }
            k += 1;
        }
        proof {
            if !done {
                assert(self.source@.skip(n as int).len() == 0);
            }
        }
        let line = slice_of(&self.source, 0, k);
        let rest = slice_of(&self.source, k, n);
        proof {
            assert(rest@ =~= self.source@.skip(k as int));
            assert((self.remaining@ + line@) + rest@ =~= self.remaining@ + self.source@);
        }
        append_chars(&mut self.remaining, &line);
        self.source = rest;
        n > 0
    }
}

} // verus!
