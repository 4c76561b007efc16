//! Compass headings and their rotations.

use vstd::prelude::*;
use crate::error::ParseErrorKind;
use crate::text::to_chars;

verus! {

/// One of the four compass headings.
#[derive(Copy, Clone, Debug, PartialEq, Eq, Structural)]
pub enum Orientation {
    North,
    East,
    South,
    West,
}

impl Orientation {
    /// The unit step taken by a forward move in this heading.
    pub open spec fn delta_spec(self) -> (int, int) {
        match self {
            Orientation::North => (0, 1),
            Orientation::East => (1, 0),
            Orientation::South => (0, -1),
            Orientation::West => (-1, 0),
        }
    }

    /// The heading a quarter turn clockwise from this one.
    pub open spec fn right_spec(self) -> Orientation {
        match self {
            Orientation::North => Orientation::East,
            Orientation::East => Orientation::South,
            Orientation::South => Orientation::West,
            Orientation::West => Orientation::North,
        }
    }

    /// The heading a quarter turn counter-clockwise from this one.
    pub open spec fn left_spec(self) -> Orientation {
        match self {
            Orientation::North => Orientation::West,
            Orientation::West => Orientation::South,
            Orientation::South => Orientation::East,
            Orientation::East => Orientation::North,
        }
    }

    /// The letter that stands for this heading.
    pub open spec fn letter(self) -> char {
        match self {
            Orientation::North => 'N',
            Orientation::East => 'E',
            Orientation::South => 'S',
            Orientation::West => 'W',
        }
    }

    /// How this heading is written: its letter alone.
    pub open spec fn written(self) -> Seq<char> {
        seq![self.letter()]
    }

    /// The heading that a word writes: the word must be exactly one of the
    /// letters `N`, `E`, `S`, `W`.
    pub open spec fn of_word(word: Seq<char>) -> Option<Orientation> {
        if word.len() != 1 {
            None
        } else if word[0] == 'N' {
            Some(Orientation::North)
        } else if word[0] == 'E' {
            Some(Orientation::East)
        } else if word[0] == 'S' {
            Some(Orientation::South)
        } else if word[0] == 'W' {
            Some(Orientation::West)
        } else {
            None
        }
    }

    /// The unit step of a forward move: north is up the y axis, east is up
    /// the x axis.
    pub fn delta(&self) -> (d: (i8, i8))
        ensures
            (d.0 as int, d.1 as int) == self.delta_spec(),
    {
        match self {
            Orientation::North => (0, 1),
            Orientation::East => (1, 0),
            Orientation::South => (0, -1),
            Orientation::West => (-1, 0),
        }
    }

    /// Quarter turn clockwise.
    pub fn right(&self) -> (o: Orientation)
        ensures
            o == self.right_spec(),
    {
        match self {
            Orientation::North => Orientation::East,
            Orientation::East => Orientation::South,
            Orientation::South => Orientation::West,
            Orientation::West => Orientation::North,
        }
    }

    /// Quarter turn counter-clockwise.
    pub fn left(&self) -> (o: Orientation)
        ensures
            o == self.left_spec(),
    {
        match self {
            Orientation::North => Orientation::West,
            Orientation::West => Orientation::South,
            Orientation::South => Orientation::East,
            Orientation::East => Orientation::North,
        }
    }

    /// Reads a heading from the characters of a word.
    pub fn from_chars(word: &[char]) -> (r: Result<Orientation, ParseErrorKind>)
        ensures
            r == match Orientation::of_word(word@) {
                Some(o) => Ok::<Orientation, ParseErrorKind>(o),
                None => Err(ParseErrorKind::BadOrientation),
            },
    {
        if word.len() != 1 {
            return Err(ParseErrorKind::BadOrientation);
        }
        let c = word[0];
        if c == 'N' {
            Ok(Orientation::North)
        } else if c == 'E' {
            Ok(Orientation::East)
        } else if c == 'S' {
            Ok(Orientation::South)
        } else if c == 'W' {
            Ok(Orientation::West)
        } else {
            Err(ParseErrorKind::BadOrientation)
        }
    }

    /// Reads a heading: `N`, `E`, `S` or `W`, and nothing else.
    pub fn parse(i: &str) -> (r: Result<Orientation, ParseErrorKind>)
        ensures
            r == match Orientation::of_word(i@) {
                Some(o) => Ok::<Orientation, ParseErrorKind>(o),
                None => Err(ParseErrorKind::BadOrientation),
            },
    {
        let word = to_chars(i);
        Orientation::from_chars(word.as_slice())
    }

    /// Writes this heading as its letter.
    pub fn to_string(&self) -> (s: String)
        ensures
            s@ == self.written(),
    {
        proof {
            reveal_strlit("N");
            reveal_strlit("E");
            reveal_strlit("S");
            reveal_strlit("W");
        }
        let letter = match self {
            Orientation::North => "N",
            Orientation::East => "E",
            Orientation::South => "S",
            Orientation::West => "W",
        };
        String::from_str(letter)
    }
}

/// Reading a heading that was written gives the heading back, and only what
/// a heading writes reads as that heading.
pub proof fn lemma_heading_round_trip(o: Orientation, word: Seq<char>)
    ensures
        Orientation::of_word(o.written()) == Some(o),
        Orientation::of_word(word) == Some(o) ==> word == o.written(),
{
}

/// Four quarter turns the same way bring a heading back to itself, and a
/// turn one way undoes a turn the other way.
pub proof fn lemma_turns(o: Orientation)
    ensures
        o.left_spec().left_spec().left_spec().left_spec() == o,
        o.right_spec().right_spec().right_spec().right_spec() == o,
        o.left_spec().right_spec() == o,
        o.right_spec().left_spec() == o,
{
}

} // verus!
