//! The text under the parser, addressed by character.

use crate::parser::lexical::{run_end, CharClass};
use vstd::prelude::*;
use vstd::string::StrSliceExecFns;

verus! {

/// A text together with its characters, so that a position is an index of a
/// character and reading one takes constant time.
pub struct Source<'a> {
    text: &'a str,
    chars: Vec<char>,
}

impl<'a> View for Source<'a> {
    type V = Seq<char>;

    closed spec fn view(&self) -> Seq<char> {
        self.text@
    }
}

impl<'a> Source<'a> {
    #[verifier::type_invariant]
    spec fn chars_follow_text(&self) -> bool {
        self.chars@ == self.text@
    }

    /// The source that holds `text`.
    pub fn new(text: &'a str) -> (r: Self)
        ensures
            r@ == text@,
    {
        broadcast use vstd::string::axiom_spec_iter;

        let mut chars: Vec<char> = Vec::new();
        for c in it: text.chars()
            invariant
                it.seq() == text@,
                chars@ == text@.take(it.index()),
        {
            chars.push(c);
        }
        assert(chars@ =~= text@);
        Source { text, chars }
    }

    /// The number of characters of the text.
    pub fn len(&self) -> (n: usize)
        ensures
            n == self@.len(),
    {
        proof {
            use_type_invariant(self);
        }
        self.chars.len()
    }

    /// The character at `i`, if the text reaches that far.
    pub fn get(&self, i: usize) -> (r: Option<char>)
        ensures
            r == (if i < self@.len() {
                Some(self@[i as int])
            } else {
                None
            }),
            self@.len() <= usize::MAX,
    {
        proof {
            use_type_invariant(self);
        }
        if i < self.chars.len() {
            Some(self.chars[i])
        } else {
            None
        }
    }

    /// The character at `i`, which lies inside the text.
    pub fn char_at(&self, i: usize) -> (c: char)
        requires
            i < self@.len(),
        ensures
            c == self@[i as int],
    {
        proof {
            use_type_invariant(self);
        }
        self.chars[i]
    }

    /// The part of the text from `from` up to `to`. The text is walked from
    /// its start to find it.
    pub fn slice(&self, from: usize, to: usize) -> (r: &'a str)
        requires
            from <= to <= self@.len(),
        ensures
            r@ == self@.subrange(from as int, to as int),
    {
        self.text.substring_char(from, to)
    }

    /// The end of the longest run of characters of `class` from `i` on.
    pub fn scan(&self, i: usize, class: CharClass) -> (end: usize)
        ensures
            end == run_end(self@, i as int, class),
            i <= end,
            i <= self@.len() ==> end <= self@.len(),
            self@.len() <= usize::MAX,
    {
        proof {
            use_type_invariant(self);
        }
        let mut end: usize = i;
        while end < self.chars.len() && class.includes(self.chars[end])
            invariant
                i <= end,
                i <= self.chars.len() ==> end <= self.chars.len(),
                self.chars@ == self@,
                run_end(self@, end as int, class) == run_end(self@, i as int, class),
            decreases self.chars.len() - end,
        {
            end += 1;
        }
        end
    }
}

} // verus!
