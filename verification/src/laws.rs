//! What holds of every world, every robot and every command list.

use vstd::prelude::*;
use crate::command::Command;
use crate::orientation::Orientation;
use crate::parser::RobotInputView;
use crate::simulation::run_all;
use crate::world::{OutcomeView, Pose, WorldView};

verus! {

/// A turn leaves the world as it is, loses no robot, and keeps the robot on
/// its square.
pub proof fn lemma_turn_stays_in_place(w: WorldView, p: Pose, c: Command)
    requires
        c != Command::Forward,
    ensures
        w.step(p, c).0 == w,
        !w.step(p, c).1.lost,
        w.step(p, c).1.pose.x == p.x,
        w.step(p, c).1.pose.y == p.y,
{
}

/// A command list made of turns alone leaves the world as it is, loses no
/// robot, and keeps the robot on its square.
pub proof fn lemma_turns_stay_in_place(w: WorldView, p: Pose, commands: Seq<Command>)
    requires
        forall|i: int| 0 <= i < commands.len() ==> commands[i] != Command::Forward,
    ensures
        w.run(p, commands).0 == w,
        !w.run(p, commands).1.lost,
        w.run(p, commands).1.pose.x == p.x,
        w.run(p, commands).1.pose.y == p.y,
    decreases commands.len(),
{
    if commands.len() > 0 {
        lemma_turns_stay_in_place(w, w.step(p, commands[0]).1.pose, commands.drop_first());
    }
}

/// Four turns the same way bring the robot back to the pose it had, in a
/// world that is as it was.
pub proof fn lemma_four_turns_restore(w: WorldView, p: Pose, c: Command)
    requires
        c != Command::Forward,
    ensures
        w.run(p, seq![c, c, c, c]) == (w, OutcomeView { pose: p, lost: false }),
{
    reveal_with_fuel(WorldView::run, 5);
}

/// A forward move onto a scented square is ignored: the robot is not lost,
/// and neither it nor the world changes.
pub proof fn lemma_scent_protects(w: WorldView, p: Pose)
    requires
        w.scents.contains(p.ahead()),
    ensures
        w.forward(p) == (w, OutcomeView { pose: p, lost: false }),
{
}

/// A robot is lost by a forward move exactly when the square ahead is off
/// the grid and has no scent.  The robot then stays where it was, and the
/// square ahead is the one scent that the world gains.
pub proof fn lemma_loss(w: WorldView, p: Pose)
    ensures
        w.forward(p).1.lost <==> !w.on_grid(p.ahead().0, p.ahead().1) && !w.scents.contains(
            p.ahead(),
        ),
        w.forward(p).1.lost ==> w.forward(p).1.pose == p && w.forward(p).0 == (WorldView {
            scents: w.scents.insert(p.ahead()),
            ..w
        }),
        !w.forward(p).1.lost ==> w.forward(p).0 == w,
{
}

/// A forward move onto a square of the grid is always made.
pub proof fn lemma_move_on_grid_is_made(w: WorldView, p: Pose)
    requires
        w.wf(),
        w.on_grid(p.ahead().0, p.ahead().1),
    ensures
        w.forward(p) == (
            w,
            OutcomeView { pose: Pose { x: p.ahead().0, y: p.ahead().1, ..p }, lost: false },
        ),
{
}

/// A robot on an edge of the grid that moves outward, with no scent ahead,
/// is lost.
pub proof fn lemma_outward_move_loses(w: WorldView, p: Pose)
    requires
        !w.scents.contains(p.ahead()),
        (p.x == w.max_x && p.heading == Orientation::East) || (p.y == w.max_y && p.heading
            == Orientation::North) || (p.x == 0 && p.heading == Orientation::West) || (p.y == 0
            && p.heading == Orientation::South),
    ensures
        w.forward(p).1 == (OutcomeView { pose: p, lost: true }),
        w.forward(p).0.scents == w.scents.insert(p.ahead()),
{
}

/// A robot on the grid at coordinate zero that moves inward, on a grid that
/// reaches beyond zero that way, is not lost: it moves one square.
pub proof fn lemma_inward_move_is_safe(w: WorldView, p: Pose)
    requires
        w.wf(),
        w.on_grid(p.x, p.y),
        (p.x == 0 && p.heading == Orientation::East && w.max_x >= 1) || (p.y == 0 && p.heading
            == Orientation::North && w.max_y >= 1),
    ensures
        !w.forward(p).1.lost,
        w.forward(p).0 == w,
        w.forward(p).1.pose == (Pose { x: p.ahead().0, y: p.ahead().1, ..p }),
{
    lemma_move_on_grid_is_made(w, p);
}

/// One command keeps the grid's bounds, keeps every scent, and keeps the
/// world well formed.
pub proof fn lemma_step_keeps(w: WorldView, p: Pose, c: Command)
    ensures
        w.step(p, c).0.max_x == w.max_x,
        w.step(p, c).0.max_y == w.max_y,
        w.scents.subset_of(w.step(p, c).0.scents),
        w.wf() ==> w.step(p, c).0.wf(),
        w.on_grid(p.x, p.y) ==> w.on_grid(w.step(p, c).1.pose.x, w.step(p, c).1.pose.y),
{
}

/// A run keeps the grid's bounds, keeps every scent, keeps the world well
/// formed, and keeps a robot that started on the grid on the grid.
pub proof fn lemma_run_keeps(w: WorldView, p: Pose, commands: Seq<Command>)
    ensures
        w.run(p, commands).0.max_x == w.max_x,
        w.run(p, commands).0.max_y == w.max_y,
        w.scents.subset_of(w.run(p, commands).0.scents),
        w.wf() ==> w.run(p, commands).0.wf(),
        w.on_grid(p.x, p.y) ==> w.on_grid(
            w.run(p, commands).1.pose.x,
            w.run(p, commands).1.pose.y,
        ),
    decreases commands.len(),
{
    if commands.len() > 0 {
        let (w1, o) = w.step(p, commands[0]);
        lemma_step_keeps(w, p, commands[0]);
        if !o.lost {
            lemma_run_keeps(w1, o.pose, commands.drop_first());
        }
    }
}

/// The runs of several robots keep the grid's bounds, keep every scent, and
/// keep the world well formed; and there is one outcome for each robot.
pub proof fn lemma_run_all_keeps(w: WorldView, robots: Seq<RobotInputView>)
    ensures
        run_all(w, robots).0.max_x == w.max_x,
        run_all(w, robots).0.max_y == w.max_y,
        w.scents.subset_of(run_all(w, robots).0.scents),
        w.wf() ==> run_all(w, robots).0.wf(),
        run_all(w, robots).1.len() == robots.len(),
    decreases robots.len(),
{
    if robots.len() > 0 {
        lemma_run_all_keeps(w, robots.drop_last());
        lemma_run_keeps(run_all(w, robots.drop_last()).0, robots.last().start, robots.last().commands);
    }
}

/// A robot whose run ends lost leaves a scent on the square ahead of the
/// pose in its outcome.
pub proof fn lemma_lost_run_leaves_scent(w: WorldView, p: Pose, commands: Seq<Command>)
    requires
        w.run(p, commands).1.lost,
    ensures
        w.run(p, commands).0.scents.contains(w.run(p, commands).1.pose.ahead()),
    decreases commands.len(),
{
    if commands.len() > 0 {
        let (w1, o) = w.step(p, commands[0]);
        if !o.lost {
            lemma_lost_run_leaves_scent(w1, o.pose, commands.drop_first());
        }
    }
}

/// The scent rule: once a robot was lost by a move, a robot that tries a
/// move onto the same square, whether at once or after any number of other
/// robots have run, is not lost, and neither it nor the world changes.  A
/// robot on the same square with the same heading is such a robot.
pub proof fn lemma_fatal_move_is_not_repeated(
    w: WorldView,
    p: Pose,
    commands: Seq<Command>,
    between: Seq<RobotInputView>,
    q: Pose,
)
    requires
        w.run(p, commands).1.lost,
        q.ahead() == w.run(p, commands).1.pose.ahead(),
    ensures
        ({
            let later = run_all(w.run(p, commands).0, between).0;
            later.forward(q) == (later, OutcomeView { pose: q, lost: false })
        }),
{
    lemma_lost_run_leaves_scent(w, p, commands);
    lemma_run_all_keeps(w.run(p, commands).0, between);
}

} // verus!
