//! Reading a text character by character: the text with its characters
//! laid out, and the rules that read no more than characters.

use vstd::prelude::*;
use vstd::std_specs::iter::IteratorSpec;
use vstd::string::{axiom_spec_iter, next_postcondition, StrSliceExecFns, StringExecFns};
use crate::ast::IdentAst;
use crate::grammar::rules;
use crate::grammar::rules::Parsed;
use crate::tree::ExprTree;

verus! {

/// The characters of a text.
pub fn chars_of(text: &str) -> (chars: Vec<char>)
    ensures
        chars@ == text@,
{
    broadcast use {axiom_spec_iter, next_postcondition};

    let mut chars: Vec<char> = Vec::new();
    let mut rest = text.chars();
    loop
        invariant
            rest.obeys_prophetic_iter_laws(),
            rest.decrease() is Some,
            chars@ + rest.remaining() == text@,
        decreases rest.decrease()->0,
    {
        match rest.next() {
            Some(c) => {
                chars.push(c);
            },
            None => {
                return chars;
            },
        }
    }
}

/// A text to be parsed.
pub struct Source<'a> {
    text: &'a str,
    chars: Vec<char>,
    ascii: bool,
}

impl<'a> View for Source<'a> {
    type V = Seq<char>;

    /// The characters of the text.
    closed spec fn view(&self) -> Seq<char> {
        self.text@
    }
}

impl<'a> Source<'a> {
    /// The characters are those of the text.
    pub closed spec fn wf(&self) -> bool {
        &&& self.chars@ == self.text@
        &&& self.ascii ==> self.text.is_ascii()
    }

    /// The text, ready to be read.
    pub fn new(text: &'a str) -> (source: Source<'a>)
        ensures
            source.wf(),
            source@ == text@,
    {
        Source { text, chars: chars_of(text), ascii: text.is_ascii() }
    }

    /// The number of characters.
    pub fn len(&self) -> (n: usize)
        requires
            self.wf(),
        ensures
            n == self@.len(),
    {
        self.chars.len()
    }

    /// The character at `pos`.
    pub fn at(&self, pos: usize) -> (c: char)
        requires
            self.wf(),
            pos < self@.len(),
        ensures
            c == self@[pos as int],
    {
        self.chars[pos]
    }

    /// The characters from `from` up to `to`, as a text of its own.
    pub fn slice(&self, from: usize, to: usize) -> (s: String)
        requires
            self.wf(),
            from <= to <= self@.len(),
        ensures
            s@ == self@.subrange(from as int, to as int),
    {
        if self.ascii {
            String::from_str(self.text.substring_ascii(from, to))
        } else {
            String::from_str(self.text.substring_char(from, to))
        }
    }

    /// Skips the blanks at `pos`.
    pub fn blanks(&self, pos: usize) -> (end: usize)
        requires
            self.wf(),
            pos <= self@.len(),
        ensures
            end == rules::blanks(self@, pos as int),
            pos <= end <= self@.len(),
    {
        let mut end = pos;
        while end < self.chars.len() && (self.chars[end] == ' ' || self.chars[end] == '\n'
            || self.chars[end] == '\t')
            invariant
                self.wf(),
                pos <= end <= self@.len(),
                rules::blanks(self@, end as int) == rules::blanks(self@, pos as int),
            decreases self@.len() - end,
        {
            end += 1;
        }
        end
    }

    /// Skips the letters at `pos`.
    pub fn letters(&self, pos: usize) -> (end: usize)
        requires
            self.wf(),
            pos <= self@.len(),
        ensures
            end == rules::letters(self@, pos as int),
            pos <= end <= self@.len(),
    {
        let mut end = pos;
        while end < self.chars.len() && (('a' <= self.chars[end] && self.chars[end] <= 'z') || ('A'
            <= self.chars[end] && self.chars[end] <= 'Z') || self.chars[end] == '_')
            invariant
                self.wf(),
                pos <= end <= self@.len(),
                rules::letters(self@, end as int) == rules::letters(self@, pos as int),
            decreases self@.len() - end,
        {
            end += 1;
        }
        end
    }

    /// Matches the character `c` at `pos`.
    pub fn symbol(&self, pos: usize, c: char) -> (end: Option<usize>)
        requires
            self.wf(),
            pos <= self@.len(),
        ensures
            match end {
                Some(p) => rules::symbol(self@, pos as int, c) == Some(p as int) && p == pos + 1
                    && p <= self@.len(),
                None => rules::symbol(self@, pos as int, c) is None,
            },
    {
        if pos < self.chars.len() && self.chars[pos] == c {
            Some(pos + 1)
        } else {
            None
        }
    }

    /// Matches the word `word` at `pos`.
    pub fn word(&self, pos: usize, word: &str) -> (end: Option<usize>)
        requires
            self.wf(),
            pos <= self@.len(),
        ensures
            match end {
                Some(p) => rules::word(self@, pos as int, word@) == Some(p as int) && p == pos
                    + word@.len() && p <= self@.len(),
                None => rules::word(self@, pos as int, word@) is None,
            },
    {
        let n = word.unicode_len();
        if n > self.chars.len() - pos {
            return None;
        }
        let mut i: usize = 0;
        while i < n
            invariant
                self.wf(),
                n == word@.len(),
                pos + n <= self.chars.len(),
                i <= n,
                forall|k: int| 0 <= k < i ==> self@[pos + k] == word@[k],
            decreases n - i,
        {
            if self.chars[pos + i] != word.get_char(i) {
                return None;
            }
            i += 1;
        }
        proof {
            assert(self@.subrange(pos as int, pos + n) =~= word@);
        }
        Some(pos + n)
    }

    /// Matches a name at `pos`.
    pub fn ident(&self, pos: usize) -> (r: Option<(IdentAst, usize)>)
        requires
            self.wf(),
            pos <= self@.len(),
        ensures
            match r {
                Some((name, next)) => rules::ident(self@, pos as int) == Some(
                    Parsed { value: name@, next: next as int },
                ) && pos < next <= self@.len(),
                None => rules::ident(self@, pos as int) is None,
            },
    {
        let end = self.letters(pos);
        if pos < end {
            Some((IdentAst { name: self.slice(pos, end) }, end))
        } else {
            None
        }
    }

    /// Matches an integer literal at `pos`.
    pub fn integer(&self, pos: usize) -> (r: Option<(i64, usize)>)
        requires
            self.wf(),
            pos <= self@.len(),
        ensures
            match r {
                Some((value, next)) => rules::integer(self@, pos as int) == Some(
                    Parsed { value: ExprTree::Integer(value), next: next as int },
                ) && pos < next <= self@.len(),
                None => rules::integer(self@, pos as int) is None,
            },
    {
        let mut end = pos;
        let mut value: i64 = 0;
        let mut fits = true;
        proof {
            assert(self@.subrange(pos as int, pos as int) =~= Seq::<char>::empty());
        }
        while end < self.chars.len() && '0' <= self.chars[end] && self.chars[end] <= '9'
            invariant
                self.wf(),
                pos <= end <= self@.len(),
                rules::numerals(self@, end as int) == rules::numerals(self@, pos as int),
                0 <= value,
                fits ==> value == rules::number(self@.subrange(pos as int, end as int)),
                !fits ==> rules::number(self@.subrange(pos as int, end as int)) > i64::MAX,
            decreases self@.len() - end,
        {
            let digit: i64 = (self.chars[end] as u32 - '0' as u32) as i64;
            proof {
                let longer = self@.subrange(pos as int, end + 1);
                assert(longer.drop_last() =~= self@.subrange(pos as int, end as int));
            }
            if fits {
                if value <= (i64::MAX - digit) / 10 {
                    value = value * 10 + digit;
                } else {
                    fits = false;
                }
            }
            end += 1;
        }
        if pos < end && fits {
            Some((value, end))
        } else {
            None
        }
    }
}

} // verus!
