//! Setting a scenario up, running its robots, and reporting how they ended.

use vstd::prelude::*;
use crate::command::Command;
use crate::decimal::{decimal, render_i8};
use crate::error::{ConstructionError, Error};
use crate::parser::{parse_input, scenario_of, Input, InputView, RobotInput, RobotInputView};
use crate::search::{first_from, lemma_first_from_is};
use crate::world::{Outcome, OutcomeView, Pose, Robot, World, WorldView, MAX_SIZE};

verus! {

/// Whether a start pose lies beyond the far corner of the grid.  Nothing is
/// asked of a negative coordinate.
pub open spec fn beyond(start: Pose, max_x: int, max_y: int) -> bool {
    start.x > max_x || start.y > max_y
}

/// The index of the first robot that starts beyond the far corner, or the
/// number of robots where there is none.
pub open spec fn first_beyond(robots: Seq<RobotInputView>, max_x: int, max_y: int) -> int {
    first_from(robots, 0, |r: RobotInputView| beyond(r.start, max_x, max_y))
}

/// The world and the robots that a scenario sets up.  The grid's bounds are
/// judged first, then the robots' starts in their order; coordinates are
/// those of a scenario read from text, which fit in eight bits.
pub open spec fn setup_of(input: InputView) -> Result<
    (WorldView, Seq<RobotInputView>),
    ConstructionError,
> {
    if input.max_x > MAX_SIZE || input.max_y > MAX_SIZE {
        Err(
            ConstructionError::BadDimensions {
                max_x: input.max_x as i8,
                max_y: input.max_y as i8,
            },
        )
    } else {
        let bad = first_beyond(input.robots, input.max_x, input.max_y);
        if bad < input.robots.len() {
            Err(
                ConstructionError::BadStart {
                    x: input.robots[bad].start.x as i8,
                    y: input.robots[bad].start.y as i8,
                },
            )
        } else {
            Ok((WorldView::fresh(input.max_x, input.max_y), input.robots))
        }
    }
}

/// What a list of placed robots stands for.
pub open spec fn placed(robots: Seq<(Robot, Vec<Command>)>) -> Seq<RobotInputView> {
    robots.map_values(|r: (Robot, Vec<Command>)| RobotInputView { start: r.0@, commands: r.1@ })
}

/// What a list of outcomes stands for.
pub open spec fn outcome_views(outcomes: Seq<Outcome>) -> Seq<OutcomeView> {
    outcomes.map_values(|o: Outcome| o@)
}

/// The characters of each string of a list.
pub open spec fn texts(lines: Seq<String>) -> Seq<Seq<char>> {
    lines.map_values(|l: String| l@)
}

/// The world after the robots have run one after another, each on the world
/// that the robots before it left behind, and their outcomes in that order.
pub open spec fn run_all(world: WorldView, robots: Seq<RobotInputView>) -> (
    WorldView,
    Seq<OutcomeView>,
)
    decreases robots.len(),
{
    if robots.len() == 0 {
        (world, Seq::empty())
    } else {
        let (before, outcomes) = run_all(world, robots.drop_last());
        let (now, outcome) = before.run(robots.last().start, robots.last().commands);
        (now, outcomes.push(outcome))
    }
}

/// The report line for one outcome: both coordinates and the heading, with
/// single spaces between them, and ` LOST` behind them for a lost robot.
pub open spec fn report_line(o: OutcomeView) -> Seq<char> {
    decimal(o.pose.x) + seq![' '] + decimal(o.pose.y) + seq![' '] + o.pose.heading.written() + (
    if o.lost {
        seq![' ', 'L', 'O', 'S', 'T']
    } else {
        Seq::empty()
    })
}

/// The report for a scenario text: one line for each robot, in the order of
/// the text, or the error that stops the run before any robot moves.
pub open spec fn report_of(text: Seq<char>) -> Result<Seq<Seq<char>>, Error> {
    match scenario_of(text) {
        Err(e) => Err(Error::Parse(e)),
        Ok(input) => match setup_of(input) {
            Err(e) => Err(Error::Construction(e)),
            Ok((world, robots)) => Ok(
                run_all(world, robots).1.map_values(|o: OutcomeView| report_line(o)),
            ),
        },
    }
}

impl Input {
    /// Builds the world and places every robot on it.
    pub fn into_world(self) -> (r: Result<(World, Vec<(Robot, Vec<Command>)>), ConstructionError>)
        ensures
            setup_of(self@) == match r {
                Ok((world, robots)) => Ok((world@, placed(robots@))),
                Err(e) => Err(e),
            },
            r matches Ok((world, _)) ==> world@.wf(),
    {
        let world = World::new(self.init_world.0, self.init_world.1)?;
        let ghost given = self@.robots;
        let ghost max_x = self@.max_x;
        let ghost max_y = self@.max_y;
        let mut robots: Vec<(Robot, Vec<Command>)> = Vec::new();
        for ri in it: self.robot_inputs
            invariant
                it.seq().map_values(|r: RobotInput| r@) == given,
                self@ == (InputView { max_x, max_y, robots: given }),
                max_x <= MAX_SIZE,
                max_y <= MAX_SIZE,
                world@.max_x == max_x,
                world@.max_y == max_y,
                forall|k: int| 0 <= k < it.index() ==> !beyond(given[k].start, max_x, max_y),
                placed(robots@) == given.take(it.index() as int),
        {
            let ghost before = placed(robots@);
            match Robot::new(ri.start_x, ri.start_y, ri.start_orientation, &world) {
                Ok(robot) => {
                    robots.push((robot, ri.commands));
                },
                Err(e) => {
                    proof {
                        lemma_first_from_is(
                            given,
                            0,
                            |r: RobotInputView| beyond(r.start, max_x, max_y),
                            it.index() as int,
                        );
                    }
                    return Err(e);
                },
            }
            assert(placed(robots@) == before.push(ri@));
        }
        proof {
            lemma_first_from_is(
                given,
                0,
                |r: RobotInputView| beyond(r.start, max_x, max_y),
                given.len() as int,
            );
        }
        assert(placed(robots@) == given);
        Ok((world, robots))
    }
}

impl Outcome {
    /// Writes the report line for this outcome.
    pub fn render(&self) -> (line: String)
        ensures
            line@ == report_line(self@),
    {
        proof {
            reveal_strlit(" ");
            reveal_strlit(" LOST");
        }
        let mut line = render_i8(self.final_x);
        line.append(" ");
        line.append(render_i8(self.final_y).as_str());
        line.append(" ");
        line.append(self.final_orientation.to_string().as_str());
        if self.lost {
            line.append(" LOST");
        }
        line
    }
}

/// Runs the robots one after another on `world`, in the order given, and
/// collects their outcomes in that order.  Each robot meets the scents that
/// the robots before it left.
pub fn simulate(world: &mut World, robots: &[(Robot, Vec<Command>)]) -> (outcomes: Vec<Outcome>)
    ensures
        (final(world)@, outcome_views(outcomes@)) == run_all(
            old(world)@,
            placed(robots@),
        ),
        final(world)@.wf(),
{
    proof {
        use_type_invariant(&*world);
    }
    let mut outcomes: Vec<Outcome> = Vec::new();
    let mut i: usize = 0;
    while i < robots.len()
        invariant
            i <= robots.len(),
            world@.wf(),
            (world@, outcome_views(outcomes@)) == run_all(
                old(world)@,
                placed(robots@).take(i as int),
            ),
        decreases robots.len() - i,
    {
        let outcome = world.run(robots[i].0, robots[i].1.as_slice());
        outcomes.push(outcome);
        i += 1;
        assert(placed(robots@).take(i as int).drop_last() == placed(robots@).take(i as int - 1));
    }
    assert(placed(robots@).take(i as int) == placed(robots@));
    outcomes
}

/// Reads a scenario, sets it up, runs every robot and returns the report:
/// one line for each robot, in the order of the text.  An error anywhere in
/// the text or in the set-up stops the run before any robot has moved.
pub fn run_input(input: &str) -> (r: Result<Vec<String>, Error>)
    ensures
        report_of(input@) == match r {
            Ok(lines) => Ok(texts(lines@)),
            Err(e) => Err(e),
        },
{
    let scenario = match parse_input(input) {
        Ok(scenario) => scenario,
        Err(e) => {
            return Err(Error::Parse(e));
        },
    };
    let (mut world, robots) = match scenario.into_world() {
        Ok(set_up) => set_up,
        Err(e) => {
            return Err(Error::Construction(e));
        },
    };
    let outcomes = simulate(&mut world, robots.as_slice());
    let mut lines: Vec<String> = Vec::new();
    let mut i: usize = 0;
    while i < outcomes.len()
        invariant
            i <= outcomes.len(),
            texts(lines@) == outcome_views(outcomes@).map_values(
                |o: OutcomeView| report_line(o),
            ).take(i as int),
        decreases outcomes.len() - i,
    {
        let ghost done = texts(lines@);
        let line = outcomes[i].render();
        lines.push(line);
        i += 1;
        assert(texts(lines@) == done.push(line@));
    }
    assert(texts(lines@) == outcome_views(outcomes@).map_values(|o: OutcomeView| report_line(o)));
    Ok(lines)
}

} // verus!
