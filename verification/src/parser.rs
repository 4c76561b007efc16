//! Reading a scenario from text.
//!
//! The first non-empty line gives the grid's far corner.  After it come the
//! robots, each on two lines that follow one another: a start line with two
//! coordinates and a heading, and a line of command letters.  Empty lines
//! before a start line are passed over.

use vstd::prelude::*;
use crate::command::Command;
use crate::decimal::{parse_i8, small_int_of};
use crate::error::{ParseError, ParseErrorKind};
use crate::orientation::Orientation;
use crate::search::{first_from, lemma_first_from, lemma_first_from_is};
use crate::text::{split_lines, split_words, to_chars, words, Lines};
use crate::world::Pose;

verus! {

/// One robot as the text gives it.
#[derive(Debug, PartialEq, Eq)]
pub struct RobotInput {
    pub start_x: i8,
    pub start_y: i8,
    pub start_orientation: Orientation,
    pub commands: Vec<Command>,
}

/// A scenario as the text gives it: the grid's far corner and the robots in
/// the order in which they are to run.
#[derive(Debug, PartialEq, Eq)]
pub struct Input {
    pub init_world: (i8, i8),
    pub robot_inputs: Vec<RobotInput>,
}

/// What a `RobotInput` stands for.
pub struct RobotInputView {
    pub start: Pose,
    pub commands: Seq<Command>,
}

/// What an `Input` stands for.
pub struct InputView {
    pub max_x: int,
    pub max_y: int,
    pub robots: Seq<RobotInputView>,
}

impl View for RobotInput {
    type V = RobotInputView;

    open spec fn view(&self) -> RobotInputView {
        RobotInputView {
            start: Pose {
                x: self.start_x as int,
                y: self.start_y as int,
                heading: self.start_orientation,
            },
            commands: self.commands@,
        }
    }
}

impl View for Input {
    type V = InputView;

    open spec fn view(&self) -> InputView {
        InputView {
            max_x: self.init_world.0 as int,
            max_y: self.init_world.1 as int,
            robots: self.robot_inputs@.map_values(|r: RobotInput| r@),
        }
    }
}

/// The far corner that a grid line gives: the line must hold exactly two
/// words, and both must be integers.
pub open spec fn grid_of(line: Seq<char>) -> Option<(int, int)> {
    let w = split_words(line);
    if w.len() != 2 {
        None
    } else {
        match (small_int_of(w[0]), small_int_of(w[1])) {
            (Some(max_x), Some(max_y)) => Some((max_x, max_y)),
            _ => None,
        }
    }
}

/// The pose that a start line gives: the line must hold exactly three words,
/// two integers and a heading.  The first fault from the left decides the
/// error.
pub open spec fn start_of(line: Seq<char>) -> Result<Pose, ParseErrorKind> {
    let w = split_words(line);
    if w.len() != 3 {
        Err(ParseErrorKind::BadStart)
    } else {
        match (small_int_of(w[0]), small_int_of(w[1]), Orientation::of_word(w[2])) {
            (None, _, _) => Err(ParseErrorKind::BadCoordinate),
            (Some(_), None, _) => Err(ParseErrorKind::BadCoordinate),
            (Some(_), Some(_), None) => Err(ParseErrorKind::BadOrientation),
            (Some(x), Some(y), Some(heading)) => Ok(Pose { x, y, heading }),
        }
    }
}

/// The commands that a command line gives, one for each character.  The
/// first character that is no command decides the error.
pub open spec fn commands_of(line: Seq<char>) -> Result<Seq<Command>, ParseErrorKind> {
    let bad = first_from(line, 0, |c: char| Command::of_char(c) is None);
    if bad < line.len() {
        Err(ParseErrorKind::BadCommand(line[bad]))
    } else {
        Ok(line.map_values(|c: char| Command::of_char(c).unwrap()))
    }
}

/// The index of the first non-empty line at or after `from`, or the number
/// of lines where there is none.
pub open spec fn next_filled(lines: Seq<Seq<char>>, from: int) -> int {
    first_from(lines, from, |line: Seq<char>| line.len() > 0)
}

/// The robot whose start line is the first non-empty line at or after
/// `from`, together with the index of the first line that was not read.
/// The line directly after the start line is the command line, empty or not.
pub open spec fn block_at(lines: Seq<Seq<char>>, from: int) -> (
    Result<Option<RobotInputView>, ParseError>,
    int,
) {
    let at = next_filled(lines, from);
    if at >= lines.len() {
        (Ok(None), at)
    } else {
        match start_of(lines[at]) {
            Err(kind) => (Err(ParseError { line: at as usize, kind }), at + 1),
            Ok(start) => if at + 1 >= lines.len() {
                (
                    Err(ParseError { line: (at + 1) as usize, kind: ParseErrorKind::NoCommands }),
                    at + 1,
                )
            } else {
                match commands_of(lines[at + 1]) {
                    Err(kind) => (Err(ParseError { line: (at + 1) as usize, kind }), at + 2),
                    Ok(commands) => (Ok(Some(RobotInputView { start, commands })), at + 2),
                }
            },
        }
    }
}

/// All robots from line `from` on, or the first error met.
pub open spec fn robots_from(lines: Seq<Seq<char>>, from: int) -> Result<
    Seq<RobotInputView>,
    ParseError,
>
    decreases lines.len() - from,
{
    if from < 0 || from > lines.len() {
        Ok(Seq::empty())
    } else {
        let (block, next) = block_at(lines, from);
        match block {
            Err(e) => Err(e),
            Ok(None) => Ok(Seq::empty()),
            Ok(Some(robot)) => {
                proof {
                    lemma_first_from(lines, from, |line: Seq<char>| line.len() > 0);
                }
                match robots_from(lines, next) {
                    Err(e) => Err(e),
                    Ok(rest) => Ok(seq![robot] + rest),
                }
            },
        }
    }
}

/// The scenario that a text gives, or the first error met.
pub open spec fn scenario_of(text: Seq<char>) -> Result<InputView, ParseError> {
    let lines = split_lines(text);
    let at = next_filled(lines, 0);
    if at >= lines.len() {
        Err(ParseError { line: at as usize, kind: ParseErrorKind::NoGrid })
    } else {
        match grid_of(lines[at]) {
            None => Err(ParseError { line: at as usize, kind: ParseErrorKind::BadGrid }),
            Some((max_x, max_y)) => match robots_from(lines, at + 1) {
                Err(e) => Err(e),
                Ok(robots) => Ok(InputView { max_x, max_y, robots }),
            },
        }
    }
}

/// Reads a grid line.
fn parse_grid(line: &[char]) -> (r: Option<(i8, i8)>)
    ensures
        grid_of(line@) == match r {
            Some(corner) => Some((corner.0 as int, corner.1 as int)),
            None => None,
        },
{
    let w = words(line);
    if w.len() != 2 {
        return None;
    }
    match (parse_i8(w[0]), parse_i8(w[1])) {
        (Some(max_x), Some(max_y)) => Some((max_x, max_y)),
        _ => None,
    }
}

/// Reads a start line.
fn parse_start(line: &[char]) -> (r: Result<(i8, i8, Orientation), ParseErrorKind>)
    ensures
        start_of(line@) == match r {
            Ok(start) => Ok(Pose { x: start.0 as int, y: start.1 as int, heading: start.2 }),
            Err(kind) => Err(kind),
        },
{
    let w = words(line);
    if w.len() != 3 {
        return Err(ParseErrorKind::BadStart);
    }
    assert(split_words(line@)[0] == w@[0]@ && split_words(line@)[1] == w@[1]@ && split_words(
        line@,
    )[2] == w@[2]@);
    let x = match parse_i8(w[0]) {
        Some(x) => x,
        None => {
            return Err(ParseErrorKind::BadCoordinate);
        },
    };
    let y = match parse_i8(w[1]) {
        Some(y) => y,
        None => {
            return Err(ParseErrorKind::BadCoordinate);
        },
    };
    let heading = Orientation::from_chars(w[2])?;
    Ok((x, y, heading))
}

/// Reads a command line.
fn parse_commands(line: &[char]) -> (r: Result<Vec<Command>, ParseErrorKind>)
    ensures
        commands_of(line@) == match r {
            Ok(commands) => Ok(commands@),
            Err(kind) => Err(kind),
        },
{
    let mut commands: Vec<Command> = Vec::new();
    let mut i: usize = 0;
    while i < line.len()
        invariant
            i <= line.len(),
            commands@.len() == i,
            forall|k: int|
                #![trigger line@[k]]
                #![trigger commands@[k]]
                0 <= k < i ==> Command::of_char(line@[k]) == Some(commands@[k]),
        decreases line.len() - i,
    {
        match Command::parse(line[i]) {
            Ok(c) => {
                commands.push(c);
            },
            Err(kind) => {
                proof {
                    lemma_first_from_is(
                        line@,
                        0,
                        |c: char| Command::of_char(c) is None,
                        i as int,
                    );
                }
                return Err(kind);
            },
        }
        i += 1;
    }
    proof {
        lemma_first_from_is(line@, 0, |c: char| Command::of_char(c) is None, i as int);
        assert(commands@ =~= line@.map_values(|c: char| Command::of_char(c).unwrap()));
    }
    Ok(commands)
}

/// Moves the cursor behind the next non-empty line, and returns that line
/// with its index; or moves it to the end where only empty lines are left.
fn next_filled_line<'a>(lines: &mut Lines<'a>) -> (r: Option<(usize, &'a [char])>)
    ensures
        final(lines).all() == old(lines).all(),
        match r {
            Some((at, line)) => {
                &&& at == next_filled(old(lines).all(), old(lines).position())
                &&& at < old(lines).all().len()
                &&& line@ == old(lines).all()[at as int]
                &&& final(lines).position() == at + 1
            },
            None => {
                &&& next_filled(old(lines).all(), old(lines).position()) == old(lines).all().len()
                &&& final(lines).position() == old(lines).all().len()
            },
        },
{
    loop
        invariant
            lines.all() == old(lines).all(),
            old(lines).position() <= lines.position(),
            next_filled(lines.all(), old(lines).position()) == next_filled(
                lines.all(),
                lines.position(),
            ),
        decreases lines.all().len() - lines.position(),
    {
        let at = lines.line_number();
        match lines.next() {
            None => {
                return None;
            },
            Some(line) => {
                if line.len() > 0 {
                    return Some((at, line));
                }
            },
        }
    }
}

/// Reads the next robot from `lines`: passes over empty lines, then reads a
/// start line and the command line directly after it.  Returns `Ok(None)`
/// where only empty lines are left.  The cursor ends behind the last line
/// that was read.
pub fn parse_robot_input<'a>(lines: &mut Lines<'a>) -> (r: Result<Option<RobotInput>, ParseError>)
    ensures
        final(lines).all() == old(lines).all(),
        block_at(old(lines).all(), old(lines).position()) == (
            match r {
                Ok(Some(robot)) => Ok(Some(robot@)),
                Ok(None) => Ok(None),
                Err(e) => Err(e),
            },
            final(lines).position(),
        ),
{
    let (at, start_line) = match next_filled_line(lines) {
        Some(found) => found,
        None => {
            return Ok(None);
        },
    };
    let (start_x, start_y, start_orientation) = match parse_start(start_line) {
        Ok(start) => start,
        Err(kind) => {
            return Err(ParseError { line: at, kind });
        },
    };
    let below: usize = lines.line_number();
    let command_line = match lines.next() {
        Some(l) => l,
        None => {
            return Err(ParseError { line: below, kind: ParseErrorKind::NoCommands });
        },
    };
    let commands = match parse_commands(command_line) {
        Ok(commands) => commands,
        Err(kind) => {
            return Err(ParseError { line: below, kind });
        },
    };
    Ok(Some(RobotInput { start_x, start_y, start_orientation, commands }))
}

/// `rest` with the robots of `done` put before it.
spec fn after(done: Seq<RobotInputView>, rest: Result<Seq<RobotInputView>, ParseError>)
    -> Result<Seq<RobotInputView>, ParseError> {
    match rest {
        Ok(robots) => Ok(done + robots),
        Err(e) => Err(e),
    }
}

/// Reads a whole scenario: the grid line, then robots until the text ends.
/// Stops at the first error.
pub fn parse_input(s: &str) -> (r: Result<Input, ParseError>)
    ensures
        scenario_of(s@) == match r {
            Ok(input) => Ok(input@),
            Err(e) => Err(e),
        },
{
    let text = to_chars(s);
    let mut lines = Lines::new(text.as_slice());
    let ghost all = lines.all();
    let (at, grid_line) = match next_filled_line(&mut lines) {
        Some(found) => found,
        None => {
            return Err(ParseError { line: lines.line_number(), kind: ParseErrorKind::NoGrid });
        },
    };
    let init_world = match parse_grid(grid_line) {
        Some(corner) => corner,
        None => {
            return Err(ParseError { line: at, kind: ParseErrorKind::BadGrid });
        },
    };
    let mut robot_inputs: Vec<RobotInput> = Vec::new();
    let ghost first = at as int + 1;
    loop
        invariant
            lines.all() == all,
            0 <= lines.position() <= all.len(),
            scenario_of(s@) == match robots_from(all, first) {
                Ok(robots) => Ok::<InputView, ParseError>(
                    InputView {
                        max_x: init_world.0 as int,
                        max_y: init_world.1 as int,
                        robots,
                    },
                ),
                Err(e) => Err(e),
            },
            after(
                robot_inputs@.map_values(|r: RobotInput| r@),
                robots_from(all, lines.position()),
            ) == robots_from(all, first),
        decreases all.len() - lines.position(),
    {
        let ghost done = robot_inputs@.map_values(|r: RobotInput| r@);
        let ghost from = lines.position();
        proof {
            lemma_first_from(all, from, |line: Seq<char>| line.len() > 0);
        }
        match parse_robot_input(&mut lines) {
            Err(e) => {
                return Err(e);
            },
            Ok(None) => {
                return Ok(Input { init_world, robot_inputs });
            },
            Ok(Some(robot)) => {
                robot_inputs.push(robot);
                assert(robot_inputs@.map_values(|r: RobotInput| r@) == done.push(robot@));
                assert(forall|rest: Seq<RobotInputView>|
                    done.push(robot@) + rest == done + (seq![robot@] + rest));
            },
        }
    }
}

} // verus!
