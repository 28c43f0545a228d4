//! The character cursor that every recognizer reads through.
use vstd::prelude::*;
use crate::chars::{is_white_space, is_whitespace};

verus! {

/// The first offset at or after `i` that holds no whitespace character, or the
/// length of `cs` where there is none.
pub open spec fn skip_white(cs: Seq<char>, i: int) -> int
    decreases cs.len() - i,
{
    if i < 0 || i >= cs.len() || !is_white_space(cs[i]) {
        i
    } else {
        skip_white(cs, i + 1)
    }
}

/// Whether `c` is whitespace other than a newline.
pub open spec fn is_space(c: char) -> bool {
    is_white_space(c) && c != '\n'
}

/// The first offset at or after `i` that holds no whitespace character other
/// than a newline, or the length of `cs` where there is none.
pub open spec fn skip_spaces(cs: Seq<char>, i: int) -> int
    decreases cs.len() - i,
{
    if i < 0 || i >= cs.len() || !is_space(cs[i]) {
        i
    } else {
        skip_spaces(cs, i + 1)
    }
}

/// `skip_spaces` stays within `i..=len` and stops only where the run of
/// whitespace other than newlines ends.
pub proof fn lemma_skip_spaces(cs: Seq<char>, i: int)
    requires
        0 <= i <= cs.len(),
    ensures
        i <= skip_spaces(cs, i) <= cs.len(),
        forall|k: int| i <= k < skip_spaces(cs, i) ==> is_space(#[trigger] cs[k]),
        skip_spaces(cs, i) < cs.len() ==> !is_space(cs[skip_spaces(cs, i)]),
    decreases cs.len() - i,
{
    if i < cs.len() && is_space(cs[i]) {
        lemma_skip_spaces(cs, i + 1);
    }
}

/// Whether `lit` occurs in `cs` starting at offset `i`.
pub open spec fn matches_at(cs: Seq<char>, i: int, lit: Seq<char>) -> bool {
    &&& 0 <= i
    &&& i + lit.len() <= cs.len()
    &&& cs.subrange(i, i + lit.len()) == lit
}

/// `skip_white` stays within `i..=len` and stops only where the whitespace
/// run ends.
pub proof fn lemma_skip_white(cs: Seq<char>, i: int)
    requires
        0 <= i <= cs.len(),
    ensures
        i <= skip_white(cs, i) <= cs.len(),
        forall|k: int| i <= k < skip_white(cs, i) ==> is_white_space(#[trigger] cs[k]),
        skip_white(cs, i) < cs.len() ==> !is_white_space(cs[skip_white(cs, i)]),
    decreases cs.len() - i,
{
    if i < cs.len() && is_white_space(cs[i]) {
        lemma_skip_white(cs, i + 1);
    }
}

/// The state of the lexer between two tokens: the whole source and the
/// offset up to which it has been consumed.
#[derive(Debug, Clone)]
pub struct LexerState {
    pub chars: Vec<char>,
    pub length: usize,
    pub position: usize,
}

impl LexerState {
    /// Whether the whole source has been consumed.
    pub fn at_end(&self) -> (r: bool)
        ensures
            r == (self.position >= self.length),
    {
        self.position >= self.length
    }
}

/// A cursor over the source for one recognizer attempt. It borrows the
/// characters and keeps the offset where the attempt began (`start`) and the
/// offset it has read up to (`current`).
#[derive(Debug, Clone)]
pub struct ReaderState<'a> {
    chars: &'a Vec<char>,
    position_start: usize,
    position_current: usize,
}

impl<'a> ReaderState<'a> {
    /// The characters of the source.
    pub closed spec fn chars(&self) -> Seq<char> {
        self.chars@
    }

    /// The offset where this attempt began.
    pub closed spec fn start(&self) -> int {
        self.position_start as int
    }

    /// The offset read up to.
    pub closed spec fn current(&self) -> int {
        self.position_current as int
    }

    /// Offsets are ordered and within the source.
    pub open spec fn wf(&self) -> bool {
        &&& 0 <= self.start() <= self.current() <= self.chars().len()
        &&& self.chars().len() <= usize::MAX
    }

    /// A cursor at `position` of `chars`, that has read nothing yet.
    pub fn new(chars: &'a Vec<char>, position: usize) -> (r: Self)
        requires
            position <= chars.len(),
        ensures
            r.wf(),
            r.chars() == chars@,
            r.start() == position,
            r.current() == position,
    {
        ReaderState { chars, position_start: position, position_current: position }
    }

    /// Reads the character at the current offset and moves past it; `None` at
    /// the end of the source.
    pub fn read(&mut self) -> (r: Option<char>)
        requires
            old(self).wf(),
        ensures
            final(self).wf(),
            final(self).chars() == old(self).chars(),
            final(self).start() == old(self).start(),
            old(self).current() < old(self).chars().len() ==> {
                &&& r == Some(old(self).chars()[old(self).current()])
                &&& final(self).current() == old(self).current() + 1
            },
            old(self).current() >= old(self).chars().len() ==> {
                &&& r is None
                &&& final(self).current() == old(self).current()
            },
    {
        if self.position_current < self.chars.len() {
            let c = self.chars[self.position_current];
            self.position_current = self.position_current + 1;
            Some(c)
        } else {
            None
        }
    }

    /// The character at the current offset, without moving; `None` at the end
    /// of the source.
    pub fn peek(&self) -> (r: Option<char>)
        requires
            self.wf(),
        ensures
            self.current() < self.chars().len() ==> r == Some(self.chars()[self.current()]),
            self.current() >= self.chars().len() ==> r is None,
    {
        if self.position_current < self.chars.len() {
            Some(self.chars[self.position_current])
        } else {
            None
        }
    }

    /// The offset where this attempt began.
    pub fn get_start(&self) -> (r: usize)
        ensures
            r == self.start(),
    {
        self.position_start
    }

    /// The offset read up to.
    pub fn get_position(&self) -> (r: usize)
        ensures
            r == self.current(),
    {
        self.position_current
    }

    /// Whether anything has been read in this attempt.
    pub fn did_advance(&self) -> (r: bool)
        ensures
            r == (self.start() != self.current()),
    {
        self.position_start != self.position_current
    }

    /// Moves back to the offset where this attempt began.
    pub fn rewind(&mut self)
        requires
            old(self).wf(),
        ensures
            final(self).wf(),
            final(self).chars() == old(self).chars(),
            final(self).start() == old(self).start(),
            final(self).current() == old(self).start(),
    {
        self.position_current = self.position_start;
    }

    /// Moves past the whitespace characters at the current offset.
    pub fn consume_whitespace(&mut self)
        requires
            old(self).wf(),
        ensures
            final(self).wf(),
            final(self).chars() == old(self).chars(),
            final(self).start() == old(self).start(),
            final(self).current() == skip_white(old(self).chars(), old(self).current()),
    {
        let ghost from = self.current();
        proof {
            lemma_skip_white(self.chars(), from);
        }
        while self.position_current < self.chars.len() && is_whitespace(self.chars[self.position_current])
            invariant
                self.wf(),
                self.chars() == old(self).chars(),
                self.start() == old(self).start(),
                from <= self.current() <= skip_white(self.chars(), from),
                skip_white(self.chars(), self.current()) == skip_white(self.chars(), from),
            decreases self.chars().len() - self.current(),
        {
            proof {
                lemma_skip_white(self.chars(), self.current() + 1);
            }
            self.position_current = self.position_current + 1;
        }
    }

    /// Moves past the whitespace characters other than newlines at the
    /// current offset.
    pub fn consume_spaces(&mut self)
        requires
            old(self).wf(),
        ensures
            final(self).wf(),
            final(self).chars() == old(self).chars(),
            final(self).start() == old(self).start(),
            final(self).current() == skip_spaces(old(self).chars(), old(self).current()),
    {
        let ghost from = self.current();
        proof {
            lemma_skip_spaces(self.chars(), from);
        }
        while self.position_current < self.chars.len() && self.chars[self.position_current] != '\n'
            && is_whitespace(self.chars[self.position_current])
            invariant
                self.wf(),
                self.chars() == old(self).chars(),
                self.start() == old(self).start(),
                from <= self.current() <= skip_spaces(self.chars(), from),
                skip_spaces(self.chars(), self.current()) == skip_spaces(self.chars(), from),
            decreases self.chars().len() - self.current(),
        {
            proof {
                lemma_skip_spaces(self.chars(), self.current() + 1);
            }
            self.position_current = self.position_current + 1;
        }
    }

    /// Reads `s` if the source holds it at the current offset, and returns it;
    /// otherwise reads nothing and returns `None`.
    pub fn read_str<'b>(&mut self, s: &'b str) -> (r: Option<&'b str>)
        requires
            old(self).wf(),
        ensures
            final(self).wf(),
            final(self).chars() == old(self).chars(),
            final(self).start() == old(self).start(),
            matches_at(old(self).chars(), old(self).current(), s@) ==> {
                &&& r == Some(s)
                &&& final(self).current() == old(self).current() + s@.len()
            },
            !matches_at(old(self).chars(), old(self).current(), s@) ==> {
                &&& r is None
                &&& final(self).current() == old(self).current()
            },
    {
        let n = s.unicode_len();
        let start = self.position_current;
        if n > self.chars.len() - start {
            return None;
        }
        let mut i: usize = 0;
        while i < n
            invariant
                self.wf(),
                self.chars() == old(self).chars(),
                self.start() == old(self).start(),
                self.current() == start,
                n == s@.len(),
                i <= n,
                start + n <= self.chars.len(),
                forall|k: int| 0 <= k < i ==> self.chars()[start + k] == s@[k],
            decreases n - i,
        {
            if self.chars[start + i] != s.get_char(i) {
                proof {
                    assert(self.chars().subrange(start as int, start + n)[i as int] != s@[i as int]);
                }
                return None;
            }
            i = i + 1;
        }
        self.position_current = start + n;
        proof {
            assert(old(self).chars().subrange(start as int, start + n) =~= s@);
        }
        Some(s)
    }
}

} // verus!
