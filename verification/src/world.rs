//! The grid, its scents, and the rule by which a robot moves on it.

use vstd::prelude::*;
use std::collections::BTreeSet;
use crate::command::Command;
use crate::error::ConstructionError;
use crate::orientation::Orientation;

verus! {

broadcast use {vstd::laws_cmp::group_laws_cmp, vstd::std_specs::btree::group_btree_axioms};

/// The largest value either grid bound may have.
pub const MAX_SIZE: i8 = 50;

/// Where a robot stands and which way it faces.
pub struct Pose {
    pub x: int,
    pub y: int,
    pub heading: Orientation,
}

/// How a robot's run ended: its last valid pose, and whether it fell off.
pub struct OutcomeView {
    pub pose: Pose,
    pub lost: bool,
}

/// The grid as the rules see it: the far corner, and the squares beyond the
/// edge on which a robot was lost.
pub struct WorldView {
    pub max_x: int,
    pub max_y: int,
    pub scents: Set<(int, int)>,
}

impl Pose {
    /// The square a forward move from this pose would reach.
    pub open spec fn ahead(self) -> (int, int) {
        (self.x + self.heading.delta_spec().0, self.y + self.heading.delta_spec().1)
    }

    /// This pose after one quarter turn to the left.
    pub open spec fn turned_left(self) -> Pose {
        Pose { heading: self.heading.left_spec(), ..self }
    }

    /// This pose after one quarter turn to the right.
    pub open spec fn turned_right(self) -> Pose {
        Pose { heading: self.heading.right_spec(), ..self }
    }
}

impl WorldView {
    /// A grid with the given far corner and no scent.
    pub open spec fn fresh(max_x: int, max_y: int) -> WorldView {
        WorldView { max_x, max_y, scents: Set::empty() }
    }

    /// Whether a square lies on the grid.  Both bounds are inclusive.
    pub open spec fn on_grid(self, x: int, y: int) -> bool {
        0 <= x <= self.max_x && 0 <= y <= self.max_y
    }

    /// The grid is no larger than allowed, and every scent lies off it.
    pub open spec fn wf(self) -> bool {
        &&& self.max_x <= MAX_SIZE
        &&& self.max_y <= MAX_SIZE
        &&& forall|x: int, y: int| #[trigger] self.scents.contains((x, y)) ==> !self.on_grid(x, y)
    }

    /// One forward command.  A move onto a scented square is ignored; a move
    /// off the grid loses the robot where it stands and scents the square it
    /// would have reached; any other move is made.
    pub open spec fn forward(self, p: Pose) -> (WorldView, OutcomeView) {
        let (x, y) = p.ahead();
        if self.scents.contains((x, y)) {
            (self, OutcomeView { pose: p, lost: false })
        } else if !self.on_grid(x, y) {
            (
                WorldView { scents: self.scents.insert((x, y)), ..self },
                OutcomeView { pose: p, lost: true },
            )
        } else {
            (self, OutcomeView { pose: Pose { x, y, ..p }, lost: false })
        }
    }

    /// One command of any kind.  Turns change the heading and nothing else.
    pub open spec fn step(self, p: Pose, c: Command) -> (WorldView, OutcomeView) {
        match c {
            Command::Forward => self.forward(p),
            Command::Left => (self, OutcomeView { pose: p.turned_left(), lost: false }),
            Command::Right => (self, OutcomeView { pose: p.turned_right(), lost: false }),
        }
    }

    /// A whole command list, in order, stopping at the command that loses
    /// the robot.
    pub open spec fn run(self, p: Pose, commands: Seq<Command>) -> (WorldView, OutcomeView)
        decreases commands.len(),
    {
        if commands.len() == 0 {
            (self, OutcomeView { pose: p, lost: false })
        } else {
            let (w, o) = self.step(p, commands[0]);
            if o.lost {
                (w, o)
            } else {
                w.run(o.pose, commands.drop_first())
            }
        }
    }
}

/// A robot on the grid.
#[derive(Copy, Clone, Debug, PartialEq, Eq, Structural)]
pub struct Robot {
    pub x: i8,
    pub y: i8,
    pub orientation: Orientation,
}

impl View for Robot {
    type V = Pose;

    open spec fn view(&self) -> Pose {
        Pose { x: self.x as int, y: self.y as int, heading: self.orientation }
    }
}

/// The result of one robot's run.
#[derive(Copy, Clone, Debug, PartialEq, Eq, Structural)]
pub struct Outcome {
    pub final_x: i8,
    pub final_y: i8,
    pub final_orientation: Orientation,
    pub lost: bool,
}

impl View for Outcome {
    type V = OutcomeView;

    open spec fn view(&self) -> OutcomeView {
        OutcomeView {
            pose: Pose {
                x: self.final_x as int,
                y: self.final_y as int,
                heading: self.final_orientation,
            },
            lost: self.lost,
        }
    }
}

/// The grid and the scents left on it so far.
#[derive(Debug)]
pub struct World {
    max_x: i8,
    max_y: i8,
    /// The squares on which a robot was lost.  Such a square lies one step
    /// beyond where a robot can stand, so its coordinates are kept wider
    /// than a robot's.
    tombstones: BTreeSet<(i16, i16)>,
}

/// The squares that a set of stored coordinates stands for.
spec fn squares(stored: Set<(i16, i16)>) -> Set<(int, int)> {
    Set::new(
        |p: (int, int)|
            i16::MIN <= p.0 <= i16::MAX && i16::MIN <= p.1 <= i16::MAX && stored.contains(
                (p.0 as i16, p.1 as i16),
            ),
    )
}

impl View for World {
    type V = WorldView;

    closed spec fn view(&self) -> WorldView {
        WorldView {
            max_x: self.max_x as int,
            max_y: self.max_y as int,
            scents: squares(self.tombstones@),
        }
    }
}

impl World {
    /// What holds of every `World`.
    #[verifier::type_invariant]
    pub open spec fn inv(self) -> bool {
        self@.wf()
    }

    /// A grid with the given far corner and no scent.  Fails exactly when a
    /// bound is larger than [`MAX_SIZE`]; zero and negative bounds are taken
    /// as they are.
    pub fn new(max_x: i8, max_y: i8) -> (r: Result<World, ConstructionError>)
        ensures
            match r {
                Ok(w) => {
                    &&& max_x <= MAX_SIZE && max_y <= MAX_SIZE
                    &&& w@ == WorldView::fresh(max_x as int, max_y as int)
                    &&& w@.wf()
                },
                Err(e) => {
                    &&& max_x > MAX_SIZE || max_y > MAX_SIZE
                    &&& e == (ConstructionError::BadDimensions { max_x, max_y })
                },
            },
    {
        if max_x > MAX_SIZE || max_y > MAX_SIZE {
            return Err(ConstructionError::BadDimensions { max_x, max_y });
        }
        let w = World { max_x, max_y, tombstones: BTreeSet::new() };
        assert(w@.scents =~= Set::<(int, int)>::empty());
        Ok(w)
    }

    /// The largest x on the grid.
    pub fn max_x(&self) -> (m: i8)
        ensures
            m == self@.max_x,
            m <= MAX_SIZE,
    {
        proof {
            use_type_invariant(self);
        }
        self.max_x
    }

    /// The largest y on the grid.
    pub fn max_y(&self) -> (m: i8)
        ensures
            m == self@.max_y,
            m <= MAX_SIZE,
    {
        proof {
            use_type_invariant(self);
        }
        self.max_y
    }

    /// Whether a robot was lost stepping onto the square `(x, y)`.  No
    /// square of the grid has a scent.
    pub fn has_scent(&self, x: i16, y: i16) -> (b: bool)
        ensures
            b == self@.scents.contains((x as int, y as int)),
            b ==> !self@.on_grid(x as int, y as int),
    {
        proof {
            use_type_invariant(self);
        }
        let key: (i16, i16) = (x, y);
        let b = self.tombstones.contains(&key);
        assert(b == self@.scents.contains((x as int, y as int)));
        b
    }

    /// Carries out one forward command for `robot`, and says whether the
    /// robot was lost by it.
    pub fn apply_forward(&mut self, robot: &mut Robot) -> (lost: bool)
        ensures
            (final(self)@, OutcomeView { pose: final(robot)@, lost }) == old(self)@.forward(
                old(robot)@,
            ),
            final(self)@.wf(),
    {
        proof {
            use_type_invariant(&*self);
        }
        let (dx, dy) = robot.orientation.delta();
        let new_x: i16 = robot.x as i16 + dx as i16;
        let new_y: i16 = robot.y as i16 + dy as i16;
        let key: (i16, i16) = (new_x, new_y);
        if self.tombstones.contains(&key) {
            return false;
        }
        if new_x > self.max_x as i16 || new_y > self.max_y as i16 || new_x < 0 || new_y < 0 {
            // The set cannot be grown in place while the world's invariant
            // stands on it: it is taken out, grown, and put back.  While it
            // is out the world holds no scent, which the invariant allows.
            let mut scents: BTreeSet<(i16, i16)> = BTreeSet::new();
            core::mem::swap(&mut self.tombstones, &mut scents);
            scents.insert(key);
            assert(squares(scents@) =~= old(self)@.scents.insert((new_x as int, new_y as int)));
            self.tombstones = scents;
            return true;
        }
        robot.x = new_x as i8;
        robot.y = new_y as i8;
        false
    }

    /// Runs `robot` through `commands` in order.  Turns are made in place; a
    /// forward move follows [`WorldView::forward`].  The run stops at the
    /// command that loses the robot, and the outcome holds the last valid
    /// pose either way.
    pub fn run(&mut self, robot: Robot, commands: &[Command]) -> (outcome: Outcome)
        ensures
            (final(self)@, outcome@) == old(self)@.run(robot@, commands@),
            final(self)@.wf(),
    {
        proof {
            use_type_invariant(&*self);
        }
        let mut current = robot;
        let mut i: usize = 0;
        assert(commands@.skip(0) == commands@);
        while i < commands.len()
            invariant
                i <= commands.len(),
                self@.wf(),
                self@.run(current@, commands@.skip(i as int)) == old(self)@.run(
                    robot@,
                    commands@,
                ),
            decreases commands.len() - i,
        {
            assert(commands@.skip(i as int).drop_first() == commands@.skip(i as int + 1));
            match commands[i] {
                Command::Forward => {
                    if self.apply_forward(&mut current) {
                        return Outcome {
                            final_x: current.x,
                            final_y: current.y,
                            final_orientation: current.orientation,
                            lost: true,
                        };
                    }
                },
                Command::Left => {
                    current.orientation = current.orientation.left();
                },
                Command::Right => {
                    current.orientation = current.orientation.right();
                },
            }
            i += 1;
        }
        Outcome {
            final_x: current.x,
            final_y: current.y,
            final_orientation: current.orientation,
            lost: false,
        }
    }
}

impl Robot {
    /// Places a robot on `world`.  Fails exactly when a start coordinate is
    /// beyond the far corner; negative coordinates are taken as they are.
    pub fn new(startx: i8, starty: i8, orientation: Orientation, world: &World) -> (r: Result<
        Robot,
        ConstructionError,
    >)
        ensures
            r == if startx > world@.max_x || starty > world@.max_y {
                Err::<Robot, ConstructionError>(ConstructionError::BadStart { x: startx, y: starty })
            } else {
                Ok(Robot { x: startx, y: starty, orientation })
            },
    {
        if startx > world.max_x || starty > world.max_y {
            return Err(ConstructionError::BadStart { x: startx, y: starty });
        }
        Ok(Robot { x: startx, y: starty, orientation })
    }
}

} // verus!
