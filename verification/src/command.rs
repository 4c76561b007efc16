//! The three commands a robot understands.

use vstd::prelude::*;
use crate::error::ParseErrorKind;

verus! {

/// One movement command.
#[derive(Copy, Clone, Debug, PartialEq, Eq, Structural)]
pub enum Command {
    Forward,
    Left,
    Right,
}

impl Command {
    /// The command a character stands for, if any.
    pub open spec fn of_char(c: char) -> Option<Command> {
        if c == 'F' {
            Some(Command::Forward)
        } else if c == 'L' {
            Some(Command::Left)
        } else if c == 'R' {
            Some(Command::Right)
        } else {
            None
        }
    }

    /// Reads one command character: `F`, `L` or `R`.  Any other character is
    /// refused, and the error carries it.
    pub fn parse(i: char) -> (r: Result<Command, ParseErrorKind>)
        ensures
            r == match Command::of_char(i) {
                Some(c) => Ok::<Command, ParseErrorKind>(c),
                None => Err(ParseErrorKind::BadCommand(i)),
            },
    {
        if i == 'F' {
            Ok(Command::Forward)
        } else if i == 'L' {
            Ok(Command::Left)
        } else if i == 'R' {
            Ok(Command::Right)
        } else {
            Err(ParseErrorKind::BadCommand(i))
        }
    }
}

} // verus!
