//! Lines and words in a buffer of characters.
//!
//! A text is cut into lines at each line feed, and a line into words at runs
//! of white space.  Both cuts are stated as functions on `Seq<char>` and
//! computed on slices of the buffer, without copying it.

use vstd::prelude::*;
use vstd::slice::slice_subrange;
use crate::search::{first_from, lemma_first_from, lemma_first_from_is};

verus! {

/// Whether `c` is white space: a character that Unicode lists as
/// `White_Space`.
pub open spec fn is_space(c: char) -> bool {
    let u = c as u32;
    ||| 0x09 <= u <= 0x0D
    ||| u == 0x20
    ||| u == 0x85
    ||| u == 0xA0
    ||| u == 0x1680
    ||| 0x2000 <= u <= 0x200A
    ||| u == 0x2028
    ||| u == 0x2029
    ||| u == 0x202F
    ||| u == 0x205F
    ||| u == 0x3000
}

/// The index of the first line feed at or after `from`, or the length of `s`.
pub open spec fn line_end(s: Seq<char>, from: int) -> int {
    first_from(s, from, |c: char| c == '\n')
}

/// A line without the carriage return that stood before its line feed.
pub open spec fn strip_cr(line: Seq<char>) -> Seq<char> {
    if line.len() > 0 && line.last() == '\r' {
        line.drop_last()
    } else {
        line
    }
}

/// The lines of `s` from index `from` on.
pub open spec fn lines_from(s: Seq<char>, from: int) -> Seq<Seq<char>>
    decreases s.len() - from,
{
    if from < 0 || from >= s.len() {
        Seq::empty()
    } else {
        let end = line_end(s, from);
        if end < s.len() {
            proof {
                lemma_first_from(s, from, |c: char| c == '\n');
            }
            seq![strip_cr(s.subrange(from, end))] + lines_from(s, end + 1)
        } else {
            seq![s.subrange(from, s.len() as int)]
        }
    }
}

/// The lines of a text.  Each line feed ends a line, and a carriage return
/// directly before that line feed belongs to the line ending.  What follows
/// the last line feed is a line too, unless it is empty; a carriage return
/// at its end stays.
pub open spec fn split_lines(s: Seq<char>) -> Seq<Seq<char>> {
    lines_from(s, 0)
}

/// The index of the first character at or after `from` that is no white
/// space, or the length of `s`.
pub open spec fn word_start(s: Seq<char>, from: int) -> int {
    first_from(s, from, |c: char| !is_space(c))
}

/// The index of the first white space at or after `from`, or the length of
/// `s`.
pub open spec fn word_end(s: Seq<char>, from: int) -> int {
    first_from(s, from, |c: char| is_space(c))
}

/// The words of `s` from index `from` on.
pub open spec fn words_from(s: Seq<char>, from: int) -> Seq<Seq<char>>
    decreases s.len() - from,
{
    let start = word_start(s, from);
    if from < 0 || start >= s.len() {
        Seq::empty()
    } else {
        let end = word_end(s, start);
        proof {
            lemma_first_from(s, from, |c: char| !is_space(c));
            lemma_first_from(s, start, |c: char| is_space(c));
        }
        seq![s.subrange(start, end)] + words_from(s, end)
    }
}

/// The words of a line: its longest runs of characters that are no white
/// space, from left to right.
pub open spec fn split_words(s: Seq<char>) -> Seq<Seq<char>> {
    words_from(s, 0)
}

/// Whether no character of `s` satisfies `p`.
pub open spec fn free_of(s: Seq<char>, p: spec_fn(char) -> bool) -> bool {
    forall|k: int| 0 <= k < s.len() ==> !p(#[trigger] s[k])
}

/// No line holds a line feed.
pub proof fn lemma_lines_hold_no_line_feed(s: Seq<char>, from: int)
    requires
        0 <= from <= s.len(),
    ensures
        forall|i: int|
            0 <= i < lines_from(s, from).len() ==> free_of(
                #[trigger] lines_from(s, from)[i],
                |c: char| c == '\n',
            ),
    decreases s.len() - from,
{
    if from < s.len() {
        let end = line_end(s, from);
        let whole = s.subrange(from, end);
        lemma_first_from(s, from, |c: char| c == '\n');
        assert(free_of(whole, |c: char| c == '\n')) by {
            assert forall|k: int| 0 <= k < whole.len() implies whole[k] != '\n' by {}
        }
        if end < s.len() {
            lemma_lines_hold_no_line_feed(s, end + 1);
            let rest = lines_from(s, end + 1);
            let line = strip_cr(whole);
            assert(free_of(line, |c: char| c == '\n')) by {
                assert forall|k: int| 0 <= k < line.len() implies line[k] != '\n' by {}
            }
            assert forall|i: int| 0 <= i < lines_from(s, from).len() implies free_of(
                #[trigger] lines_from(s, from)[i],
                |c: char| c == '\n',
            ) by {
                if i > 0 {
                    assert(lines_from(s, from)[i] == rest[i - 1]);
                }
            }
        }
    }
}

/// Every word holds a character, and none that is white space.
pub proof fn lemma_words_hold_no_space(s: Seq<char>, from: int)
    requires
        0 <= from <= s.len(),
    ensures
        forall|i: int|
            0 <= i < words_from(s, from).len() ==> (#[trigger] words_from(s, from)[i]).len() > 0
                && free_of(words_from(s, from)[i], |c: char| is_space(c)),
    decreases s.len() - from,
{
    let start = word_start(s, from);
    lemma_first_from(s, from, |c: char| !is_space(c));
    if start < s.len() {
        let end = word_end(s, start);
        let word = s.subrange(start, end);
        lemma_first_from(s, start, |c: char| is_space(c));
        assert(free_of(word, |c: char| is_space(c))) by {
            assert forall|k: int| 0 <= k < word.len() implies !is_space(word[k]) by {}
        }
        lemma_words_hold_no_space(s, end);
        let rest = words_from(s, end);
        assert forall|i: int| 0 <= i < words_from(s, from).len() implies (#[trigger] words_from(
            s,
            from,
        )[i]).len() > 0 && free_of(words_from(s, from)[i], |c: char| is_space(c)) by {
            if i > 0 {
                assert(words_from(s, from)[i] == rest[i - 1]);
            }
        }
    }
}

/// What each slice of a list holds.
pub open spec fn contents(parts: Seq<&[char]>) -> Seq<Seq<char>> {
    parts.map_values(|part: &[char]| part@)
}

/// Whether `c` is white space.
pub fn is_whitespace(c: char) -> (b: bool)
    ensures
        b == is_space(c),
{
    let u = c as u32;
    (0x09 <= u && u <= 0x0D) || u == 0x20 || u == 0x85 || u == 0xA0 || u == 0x1680 || (0x2000 <= u
        && u <= 0x200A) || u == 0x2028 || u == 0x2029 || u == 0x202F || u == 0x205F || u == 0x3000
}

/// The characters of a string, in order.
pub fn to_chars(s: &str) -> (v: Vec<char>)
    ensures
        v@ == s@,
{
    let mut v: Vec<char> = Vec::new();
    for c in it: s.chars()
        invariant
            it.seq() == s@,
            v@ == it.seq().take(it.index()),
    {
        v.push(c);
    }
    v
}

/// Cuts a text into its lines.
pub fn lines<'a>(text: &'a [char]) -> (parts: Vec<&'a [char]>)
    ensures
        contents(parts@) == split_lines(text@),
{
    let mut parts: Vec<&'a [char]> = Vec::new();
    let mut pos: usize = 0;
    while pos < text.len()
        invariant
            pos <= text.len(),
            contents(parts@) + lines_from(text@, pos as int) == split_lines(text@),
        decreases text.len() - pos,
    {
        let mut end: usize = pos;
        while end < text.len() && text[end] != '\n'
            invariant
                pos <= end <= text.len(),
                forall|k: int| pos <= k < end ==> text@[k] != '\n',
            decreases text.len() - end,
        {
            end += 1;
        }
        proof {
            lemma_first_from_is(text@, pos as int, |c: char| c == '\n', end as int);
        }
        let ghost before = contents(parts@);
        let ghost start = pos as int;
        if end < text.len() {
            let stop: usize = if end > pos && text[end - 1] == '\r' {
                end - 1
            } else {
                end
            };
            let line = slice_subrange(text, pos, stop);
            assert(line@ == strip_cr(text@.subrange(start, end as int)));
            parts.push(line);
            pos = end + 1;
        } else {
            let line = slice_subrange(text, pos, end);
            parts.push(line);
            pos = end;
        }
        assert(contents(parts@) + lines_from(text@, pos as int) == before + lines_from(
            text@,
            start,
        ));
    }
    parts
}

/// Cuts a line into its words.
pub fn words<'a>(line: &'a [char]) -> (parts: Vec<&'a [char]>)
    ensures
        contents(parts@) == split_words(line@),
{
    let mut parts: Vec<&'a [char]> = Vec::new();
    let mut pos: usize = 0;
    while pos < line.len()
        invariant
            pos <= line.len(),
            contents(parts@) + words_from(line@, pos as int) == split_words(line@),
        decreases line.len() - pos,
    {
        if is_whitespace(line[pos]) {
            pos += 1;
        } else {
            let mut end: usize = pos + 1;
            while end < line.len() && !is_whitespace(line[end])
                invariant
                    pos < end <= line.len(),
                    forall|k: int| pos <= k < end ==> !is_space(line@[k]),
                decreases line.len() - end,
            {
                end += 1;
            }
            proof {
                lemma_first_from_is(line@, pos as int, |c: char| !is_space(c), pos as int);
                lemma_first_from_is(line@, pos as int, |c: char| is_space(c), end as int);
            }
            let ghost before = contents(parts@);
            let ghost start = pos as int;
            let word = slice_subrange(line, pos, end);
            parts.push(word);
            pos = end;
            assert(contents(parts@) + words_from(line@, pos as int) == before + words_from(
                line@,
                start,
            ));
        }
    }
    assert(words_from(line@, pos as int) == Seq::<Seq<char>>::empty()) by {
        lemma_first_from(line@, pos as int, |c: char| !is_space(c));
    }
    parts
}

/// A forward-only cursor over the lines of a text.
pub struct Lines<'a> {
    parts: Vec<&'a [char]>,
    pos: usize,
}

impl<'a> Lines<'a> {
    #[verifier::type_invariant]
    spec fn inv(self) -> bool {
        self.pos <= self.parts.len()
    }

    /// Every line of the text, read or not.
    pub closed spec fn all(&self) -> Seq<Seq<char>> {
        contents(self.parts@)
    }

    /// The index in `all()` of the line that `next` returns next.
    pub closed spec fn position(&self) -> int {
        self.pos as int
    }

    /// A cursor at the first line of `text`.
    pub fn new(text: &'a [char]) -> (cursor: Lines<'a>)
        ensures
            cursor.all() == split_lines(text@),
            cursor.position() == 0,
    {
        Lines { parts: lines(text), pos: 0 }
    }

    /// The index of the line that `next` returns next; the number of lines
    /// when none is left.
    pub fn line_number(&self) -> (n: usize)
        ensures
            n == self.position(),
            n <= self.all().len(),
    {
        proof {
            use_type_invariant(self);
        }
        self.pos
    }

    /// Returns the line at the cursor and moves past it, or returns `None`
    /// at the end of the text.
    pub fn next(&mut self) -> (line: Option<&'a [char]>)
        ensures
            final(self).all() == old(self).all(),
            match line {
                Some(l) => {
                    &&& 0 <= old(self).position() < old(self).all().len()
                    &&& l@ == old(self).all()[old(self).position()]
                    &&& final(self).position() == old(self).position() + 1
                },
                None => {
                    &&& old(self).position() == old(self).all().len()
                    &&& final(self).position() == old(self).position()
                },
            },
    {
        proof {
            use_type_invariant(&*self);
        }
        if self.pos < self.parts.len() {
            let line = self.parts[self.pos];
            self.pos += 1;
            Some(line)
        } else {
            None
        }
    }
}

} // verus!
