//! A cursor that keeps track of the current position over a character
//! sequence, the foundation the tokenizer scans with.

use vstd::prelude::*;

verus! {

/// The first position at or after `i` whose character does not satisfy
/// `p`; the run `[i, run_end)` is the maximal run of characters satisfying
/// `p`.
pub open spec fn seq_run_end(s: Seq<char>, i: int, p: spec_fn(char) -> bool) -> int
    decreases s.len() - i,
{
    if 0 <= i < s.len() && p(s[i]) {
        seq_run_end(s, i + 1, p)
    } else {
        i
    }
}

/// A run's end lies between its start and the end of the sequence, and
/// every character within the run satisfies the predicate.
pub proof fn lemma_run_end(s: Seq<char>, i: int, p: spec_fn(char) -> bool)
    requires
        0 <= i <= s.len(),
    ensures
        i <= seq_run_end(s, i, p) <= s.len(),
        forall|j: int| i <= j < seq_run_end(s, i, p) ==> p(s[j]),
        seq_run_end(s, i, p) < s.len() ==> !p(s[seq_run_end(s, i, p)]),
    decreases s.len() - i,
{
    if i < s.len() && p(s[i]) {
        lemma_run_end(s, i + 1, p);
    }
}

/// A cursor over a character sequence: the characters, the current index,
/// and the character most recently consumed.
pub struct Cursor {
    /// The characters being iterated over.
    pub chars: Vec<char>,
    /// The current index into the characters.
    pub pos: usize,
    /// The most recently consumed character.
    pub current: Option<char>,
}

impl Cursor {
    /// The character sequence under the cursor.
    pub open spec fn s(&self) -> Seq<char> {
        self.chars@
    }

    /// The cursor has not run past the end of its characters.
    pub open spec fn wf(&self) -> bool {
        self.pos <= self.chars@.len()
    }

    /// Create a new cursor at the start of a character sequence.
    pub fn new(chars: Vec<char>) -> (r: Cursor)
        ensures
            r.s() == chars@,
            r.pos == 0,
            r.current is None,
            r.wf(),
    {
        Cursor { chars, pos: 0, current: None }
    }

    /// Peek at the next character without consuming it.
    pub fn peek(&self) -> (r: Option<char>)
        requires
            self.wf(),
        ensures
            r == (if self.pos < self.s().len() {
                Some(self.s()[self.pos as int])
            } else {
                None::<char>
            }),
    {
        if self.pos < self.chars.len() {
            Some(self.chars[self.pos])
        } else {
            None
        }
    }

    /// The character most recently consumed, if any.
    pub fn current(&self) -> (r: Option<char>)
        ensures
            r == self.current,
    {
        self.current
    }

    /// The current index of the cursor.
    pub fn pos(&self) -> (r: usize)
        ensures
            r == self.pos,
    {
        self.pos
    }

    /// Consume and return the next character; at the end of the sequence
    /// the cursor stays put and returns nothing.
    pub fn advance(&mut self) -> (r: Option<char>)
        requires
            old(self).wf(),
        ensures
            final(self).s() == old(self).s(),
            final(self).wf(),
            if old(self).pos < old(self).s().len() {
                r == Some(old(self).s()[old(self).pos as int]) && final(self).pos == old(
                    self,
                ).pos + 1 && final(self).current == r
            } else {
                r is None && final(self).pos == old(self).pos && final(self).current is None
            },
    {
        if self.pos < self.chars.len() {
            let c = self.chars[self.pos];
            self.pos += 1;
            self.current = Some(c);
            Some(c)
        } else {
            self.current = None;
            None
        }
    }

    /// Consume characters as long as they satisfy the given predicate,
    /// stopping at the first that does not; `p` names what the predicate
    /// decides.
    pub fn advance_while<F: Fn(char) -> bool>(
        &mut self,
        predicate: F,
        Ghost(p): Ghost<spec_fn(char) -> bool>,
    )
        requires
            old(self).wf(),
            forall|c: char| #![auto] predicate.requires((c,)),
            forall|c: char, b: bool| call_ensures(predicate, (c,), b) ==> b == p(c),
        ensures
            final(self).s() == old(self).s(),
            final(self).wf(),
            final(self).pos == seq_run_end(old(self).s(), old(self).pos as int, p),
            final(self).current == if final(self).pos > old(self).pos {
                Some(old(self).s()[final(self).pos - 1])
            } else {
                old(self).current
            },
    {
        proof {
            lemma_run_end(self.s(), self.pos as int, p);
        }
        loop
            invariant
                self.wf(),
                forall|c: char| #![auto] predicate.requires((c,)),
                forall|c: char, b: bool| call_ensures(predicate, (c,), b) ==> b == p(c),
                self.s() == old(self).s(),
                old(self).pos <= self.pos,
                seq_run_end(self.s(), self.pos as int, p) == seq_run_end(
                    old(self).s(),
                    old(self).pos as int,
                    p,
                ),
                self.current == if self.pos > old(self).pos {
                    Some(old(self).s()[self.pos - 1])
                } else {
                    old(self).current
                },
            ensures
                self.wf(),
                self.s() == old(self).s(),
                old(self).pos <= self.pos,
                seq_run_end(self.s(), self.pos as int, p) == seq_run_end(
                    old(self).s(),
                    old(self).pos as int,
                    p,
                ),
                self.pos == self.s().len() || !p(self.s()[self.pos as int]),
                self.current == if self.pos > old(self).pos {
                    Some(old(self).s()[self.pos - 1])
                } else {
                    old(self).current
                },
            decreases self.s().len() - self.pos,
        {
            match self.peek() {
                Some(c) => {
                    if predicate(c) {
                        self.advance();
                    } else {
                        break ;
                    }
                },
                None => {
                    break ;
                },
            }
        }
    }
}

} // verus!
