//! The whole match: every entity and resource, and the frame that advances
//! them in a fixed order.
use vstd::prelude::*;
use crate::ball::{is_ball_velocity, launch_velocity, Ball, BallEntity};
use crate::collision::{negatable, Collider, Obstacle};
use crate::geometry::{unit_box, Body, Vec2};
use crate::paddle::{Paddle, PaddleMovementState, PADDLE_BOUND, PADDLE_SPEED};
use crate::reset::{lemma_relaunch_once, run, total, ResetTimer, RESET_DELAY};
use crate::score::Scoreboard;
use crate::systems::{
    ball_collision_system, ball_movement_system, ball_reset_system, balls_moved, balls_relaunched,
    hits_goal, obstacles, obstacles_of, paddle_movement_system, paddles_after_input, paddles_moved,
    player_input_system, struck, struck_all, PaddleEntity,
};

verus! {

pub struct World {
    pub paddles: Vec<PaddleEntity>,
    pub balls: Vec<BallEntity>,
    /// Walls and goals, in the order in which the ball tests them after the
    /// paddles.
    pub walls: Vec<Obstacle>,
    pub scoreboard: Scoreboard,
    pub timer: ResetTimer,
}

/// The mathematical state of a match.
pub struct WorldView {
    pub paddles: Seq<PaddleEntity>,
    pub balls: Seq<BallEntity>,
    pub walls: Seq<Obstacle>,
    pub scoreboard: Scoreboard,
    pub timer: ResetTimer,
}

impl View for World {
    type V = WorldView;

    open spec fn view(&self) -> WorldView {
        WorldView {
            paddles: self.paddles@,
            balls: self.balls@,
            walls: self.walls@,
            scoreboard: self.scoreboard,
            timer: self.timer,
        }
    }
}

/// The ball is at rest.
pub open spec fn frozen(b: BallEntity) -> bool {
    b.ball.velocity.x == 0 && b.ball.velocity.y == 0
}

impl WorldView {
    /// What holds after every frame: paddles within the playfield, each ball
    /// at rest or at full speed along a diagonal, and, with a single ball, the
    /// ball at rest exactly while a relaunch is pending.
    pub open spec fn wf(self) -> bool {
        &&& self.timer.wf()
        &&& forall|k: int|
            0 <= k < self.paddles.len() ==> -PADDLE_BOUND <= (#[trigger] self.paddles[k]).body.center.y
                <= PADDLE_BOUND
        &&& forall|k: int| 0 <= k < self.balls.len() ==> is_ball_velocity((#[trigger] self.balls[k]).ball.velocity)
        &&& self.balls.len() == 1 ==> (self.timer.armed <==> frozen(self.balls[0]))
    }

    /// The scores leave room for a goal by every ball.
    pub open spec fn room_to_score(self) -> bool {
        &&& self.scoreboard.left + self.balls.len() <= u64::MAX
        &&& self.scoreboard.right + self.balls.len() <= u64::MAX
    }

    /// The match after one frame of `dt` microseconds with the held keys
    /// `keys`, one `(up, down)` pair per paddle: input, paddle movement, ball
    /// movement, collisions, then the reset timer.
    pub open spec fn frame(self, keys: Seq<(bool, bool)>, dt: int) -> WorldView {
        let ps = paddles_moved(paddles_after_input(self.paddles, keys), dt);
        let moved = balls_moved(self.balls, dt);
        let (hit, board, timer) = struck_all(moved, obstacles_of(ps, self.walls), self.scoreboard, self.timer);
        WorldView {
            paddles: ps,
            balls: if timer.fires(dt) {
                balls_relaunched(hit)
            } else {
                hit
            },
            walls: self.walls,
            scoreboard: board,
            timer: timer.ticked(dt),
        }
    }
}

proof fn lemma_struck_velocity(b: BallEntity, obs: Seq<Obstacle>, board: Scoreboard, timer: ResetTimer)
    requires
        is_ball_velocity(b.ball.velocity),
        timer.wf(),
    ensures
        is_ball_velocity(struck(b, obs, board, timer).0.ball.velocity),
        struck(b, obs, board, timer).2.wf(),
        struck(b, obs, board, timer).2.duration == timer.duration,
        struck(b, obs, board, timer).2.armed <==> (timer.armed || hits_goal(b.body, obs)),
        hits_goal(b.body, obs) ==> frozen(struck(b, obs, board, timer).0),
        !hits_goal(b.body, obs) ==> (frozen(struck(b, obs, board, timer).0) <==> frozen(b)),
        !hits_goal(b.body, obs) ==> struck(b, obs, board, timer).2 == timer,
{
}

proof fn lemma_struck_all_velocity(
    balls: Seq<BallEntity>,
    obs: Seq<Obstacle>,
    board: Scoreboard,
    timer: ResetTimer,
)
    requires
        forall|k: int| 0 <= k < balls.len() ==> is_ball_velocity((#[trigger] balls[k]).ball.velocity),
        timer.wf(),
    ensures
        struck_all(balls, obs, board, timer).0.len() == balls.len(),
        forall|k: int|
            0 <= k < balls.len() ==> is_ball_velocity(
                (#[trigger] struck_all(balls, obs, board, timer).0[k]).ball.velocity,
            ),
        struck_all(balls, obs, board, timer).2.wf(),
        struck_all(balls, obs, board, timer).2.duration == timer.duration,
    decreases balls.len(),
{
    if balls.len() > 0 {
        let (done, b, t) = struck_all(balls.drop_last(), obs, board, timer);
        lemma_struck_all_velocity(balls.drop_last(), obs, board, timer);
        lemma_struck_velocity(balls.last(), obs, b, t);
        let r = struck_all(balls, obs, board, timer).0;
        assert forall|k: int| 0 <= k < balls.len() implies is_ball_velocity((#[trigger] r[k]).ball.velocity) by {
            if k < balls.len() - 1 {
                assert(r[k] == done[k]);
            }
        }
    }
}

/// Every frame keeps the match's invariant, whatever keys are held and
/// however long the frame: paddles stay within the playfield, a ball is at
/// rest or at full speed, and a single ball is at rest exactly while its
/// relaunch is pending.
pub proof fn lemma_frame_keeps_invariant(w: WorldView, keys: Seq<(bool, bool)>, dt: nat)
    requires
        w.wf(),
        keys.len() == w.paddles.len(),
    ensures
        w.frame(keys, dt as int).wf(),
{
    let ps = paddles_moved(paddles_after_input(w.paddles, keys), dt as int);
    let moved = balls_moved(w.balls, dt as int);
    let obs = obstacles_of(ps, w.walls);
    let (hit, board, timer) = struck_all(moved, obs, w.scoreboard, w.timer);
    let n = w.frame(keys, dt as int);
    assert forall|k: int| 0 <= k < moved.len() implies is_ball_velocity((#[trigger] moved[k]).ball.velocity) by {
        assert(moved[k].ball == w.balls[k].ball);
    }
    lemma_struck_all_velocity(moved, obs, w.scoreboard, w.timer);
    if timer.fires(dt as int) {
        assert forall|k: int| 0 <= k < n.balls.len() implies is_ball_velocity((#[trigger] n.balls[k]).ball.velocity) by {
            assert(n.balls[k].ball.velocity == launch_velocity());
        }
    }
    assert forall|k: int| 0 <= k < n.paddles.len() implies -PADDLE_BOUND <= (#[trigger] n.paddles[k]).body.center.y
        <= PADDLE_BOUND by {
        assert(n.paddles[k] == ps[k]);
    }
    if w.balls.len() == 1 {
        let s = struck(moved[0], obs, w.scoreboard, w.timer);
        assert(moved.drop_last() =~= Seq::<BallEntity>::empty());
        assert(moved.last() == moved[0]);
        assert(struck_all(moved.drop_last(), obs, w.scoreboard, w.timer) == (
            Seq::<BallEntity>::empty(),
            w.scoreboard,
            w.timer,
        ));
        lemma_struck_velocity(moved[0], obs, w.scoreboard, w.timer);
        assert(moved[0].ball == w.balls[0].ball);
        assert(hit[0] == s.0);
        assert(timer == s.2);
        assert(s.2.armed <==> frozen(s.0));
        if timer.fires(dt as int) {
            assert(n.balls[0].ball.velocity == launch_velocity());
            assert(!n.timer.armed);
        } else {
            assert(n.balls[0] == hit[0]);
            assert(n.timer.armed == timer.armed);
        }
    }
}

/// The match `w` after the first `n` frames, the `i`th with held keys
/// `keys[i]` and length `dts[i]` microseconds.
pub open spec fn run_frames(w: WorldView, keys: Seq<Seq<(bool, bool)>>, dts: Seq<u64>, n: nat) -> WorldView
    decreases n,
{
    if n == 0 {
        w
    } else {
        run_frames(w, keys, dts, (n - 1) as nat).frame(keys[n - 1], dts[n - 1] as int)
    }
}

/// Over any run of frames, with any keys held and frames of any length, the
/// invariant holds after every frame: in particular every paddle stays
/// within the playfield, and every ball moves at full speed or rests.
pub proof fn lemma_runs_keep_invariant(w: WorldView, keys: Seq<Seq<(bool, bool)>>, dts: Seq<u64>, n: nat)
    requires
        w.wf(),
        n <= keys.len(),
        n <= dts.len(),
        forall|i: int| 0 <= i < keys.len() ==> (#[trigger] keys[i]).len() == w.paddles.len(),
    ensures
        run_frames(w, keys, dts, n).wf(),
        run_frames(w, keys, dts, n).paddles.len() == w.paddles.len(),
    decreases n,
{
    if n > 0 {
        lemma_runs_keep_invariant(w, keys, dts, (n - 1) as nat);
        let prev = run_frames(w, keys, dts, (n - 1) as nat);
        assert(keys[n - 1].len() == w.paddles.len());
        lemma_frame_keeps_invariant(prev, keys[n - 1], dts[n - 1] as nat);
    }
}

/// In a frame of `dt` microseconds with held keys `keys`, the first ball
/// meets a goal.
pub open spec fn goal_in_frame(w: WorldView, keys: Seq<(bool, bool)>, dt: int) -> bool {
    let ps = paddles_moved(paddles_after_input(w.paddles, keys), dt);
    hits_goal(balls_moved(w.balls, dt)[0].body, obstacles_of(ps, w.walls))
}

proof fn lemma_frozen_run(w: WorldView, keys: Seq<Seq<(bool, bool)>>, dts: Seq<u64>, n: nat)
    requires
        w.wf(),
        w.balls.len() == 1,
        w.timer.duration > 0,
        w.timer.armed,
        w.timer.elapsed == 0,
        n <= keys.len(),
        n <= dts.len(),
        forall|i: int| 0 <= i < keys.len() ==> (#[trigger] keys[i]).len() == w.paddles.len(),
        forall|i: int| 0 <= i < n ==> !goal_in_frame(#[trigger] run_frames(w, keys, dts, i as nat), keys[i], dts[i] as int),
    ensures
        run_frames(w, keys, dts, n).timer == run(w.timer.armed_now(), dts, n as int),
        run_frames(w, keys, dts, n).balls.len() == 1,
        run_frames(w, keys, dts, n).paddles.len() == w.paddles.len(),
        total(dts, n as int) < w.timer.duration ==> frozen(run_frames(w, keys, dts, n).balls[0]),
        n > 0 && total(dts, n - 1) < w.timer.duration <= total(dts, n as int) ==> run_frames(w, keys, dts, n).balls[0].ball.velocity == launch_velocity(),
    decreases n,
{
    assert(w.timer.armed_now() == w.timer);
    lemma_runs_keep_invariant(w, keys, dts, n);
    if n > 0 {
        let m = (n - 1) as nat;
        lemma_frozen_run(w, keys, dts, m);
        lemma_runs_keep_invariant(w, keys, dts, m);
        lemma_relaunch_once(w.timer, dts);
        let prev = run_frames(w, keys, dts, m);
        let k = keys[m as int];
        let dt = dts[m as int] as int;
        assert(k.len() == w.paddles.len());
        assert(!goal_in_frame(prev, k, dt));
        let ps = paddles_moved(paddles_after_input(prev.paddles, k), dt);
        let moved = balls_moved(prev.balls, dt);
        let obs = obstacles_of(ps, prev.walls);
        assert(moved.drop_last() =~= Seq::<BallEntity>::empty());
        assert(moved.last() == moved[0]);
        assert(struck_all(moved.drop_last(), obs, prev.scoreboard, prev.timer) == (
            Seq::<BallEntity>::empty(),
            prev.scoreboard,
            prev.timer,
        ));
        lemma_struck_velocity(moved[0], obs, prev.scoreboard, prev.timer);
        assert(moved[0].ball == prev.balls[0].ball);
        let s = struck(moved[0], obs, prev.scoreboard, prev.timer);
        let (hit, board, timer) = struck_all(moved, obs, prev.scoreboard, prev.timer);
        assert(hit[0] == s.0);
        assert(timer == prev.timer);
        assert(total(dts, n as int) == total(dts, m as int) + dts[m as int]);
        assert(run(w.timer.armed_now(), dts, n as int) == prev.timer.ticked(dt));
        if total(dts, n as int) < w.timer.duration {
            assert(run(w.timer.armed_now(), dts, m as int).fires(dt) == false);
        }
    }
}

/// After a goal arms the relaunch, as long as no other goal comes, the ball
/// stays at rest through every frame until the time counted since the goal
/// reaches the delay; in the frame where it does, the ball is relaunched at
/// exactly the launch velocity; and the relaunch is pending exactly until
/// then.
pub proof fn lemma_relaunch_after_delay(w: WorldView, keys: Seq<Seq<(bool, bool)>>, dts: Seq<u64>, n: nat)
    requires
        w.wf(),
        w.balls.len() == 1,
        w.timer.duration > 0,
        w.timer.armed,
        w.timer.elapsed == 0,
        n <= keys.len(),
        n <= dts.len(),
        forall|i: int| 0 <= i < keys.len() ==> (#[trigger] keys[i]).len() == w.paddles.len(),
        forall|i: int| 0 <= i < n ==> !goal_in_frame(#[trigger] run_frames(w, keys, dts, i as nat), keys[i], dts[i] as int),
    ensures
        total(dts, n as int) < w.timer.duration ==> frozen(run_frames(w, keys, dts, n).balls[0]),
        n > 0 && total(dts, n - 1) < w.timer.duration <= total(dts, n as int) ==> run_frames(w, keys, dts, n).balls[0].ball.velocity == launch_velocity(),
        run_frames(w, keys, dts, n).timer.armed == (total(dts, n as int) < w.timer.duration),
{
    lemma_frozen_run(w, keys, dts, n);
    lemma_relaunch_once(w.timer, dts);
    assert(w.timer.armed_now() == w.timer);
}

impl World {
    /// The standard court, 1280 by 720 units: a paddle 20 by 120 near each
    /// end at x = -600 and x = 600, the ball 20 by 20 at the center about to
    /// be launched, walls 30 thick along the top and bottom, and a goal 100
    /// wide behind each end; scores at zero and no relaunch pending.
    pub fn standard() -> (r: World)
        ensures
            r@.wf(),
            r.paddles@ == seq![
                PaddleEntity { paddle: Paddle { move_state: PaddleMovementState::Still, speed: PADDLE_SPEED }, body: Body { center: Vec2 { x: -600_000_000i64, y: 0 }, half: Vec2 { x: 10_000_000, y: 60_000_000 } } },
                PaddleEntity { paddle: Paddle { move_state: PaddleMovementState::Still, speed: PADDLE_SPEED }, body: Body { center: Vec2 { x: 600_000_000, y: 0 }, half: Vec2 { x: 10_000_000, y: 60_000_000 } } },
            ],
            r.balls@ == seq![
                BallEntity { ball: Ball { velocity: launch_velocity() }, body: Body { center: Vec2 { x: 0, y: 0 }, half: Vec2 { x: 10_000_000, y: 10_000_000 } } },
            ],
            r.walls@ == seq![
                Obstacle { collider: Collider::Solid, body: Body { center: Vec2 { x: 0, y: 345_000_000 }, half: Vec2 { x: 640_000_000, y: 15_000_000 } } },
                Obstacle { collider: Collider::Solid, body: Body { center: Vec2 { x: 0, y: -345_000_000i64 }, half: Vec2 { x: 640_000_000, y: 15_000_000 } } },
                Obstacle { collider: Collider::Scoreable, body: Body { center: Vec2 { x: -690_000_000i64, y: 0 }, half: Vec2 { x: 50_000_000, y: 360_000_000 } } },
                Obstacle { collider: Collider::Scoreable, body: Body { center: Vec2 { x: 690_000_000, y: 0 }, half: Vec2 { x: 50_000_000, y: 360_000_000 } } },
            ],
            r.scoreboard == (Scoreboard { left: 0, right: 0 }),
            r.timer == (ResetTimer { duration: RESET_DELAY, elapsed: 0, armed: false }),
    {
        let mut paddles: Vec<PaddleEntity> = Vec::new();
        paddles.push(PaddleEntity { paddle: Paddle::new(), body: unit_box(-600, 0, 10, 60) });
        paddles.push(PaddleEntity { paddle: Paddle::new(), body: unit_box(600, 0, 10, 60) });
        let mut balls: Vec<BallEntity> = Vec::new();
        balls.push(BallEntity { ball: Ball::new(), body: unit_box(0, 0, 10, 10) });
        let mut walls: Vec<Obstacle> = Vec::new();
        walls.push(Obstacle { collider: Collider::Solid, body: unit_box(0, 345, 640, 15) });
        walls.push(Obstacle { collider: Collider::Solid, body: unit_box(0, -345, 640, 15) });
        walls.push(Obstacle { collider: Collider::Scoreable, body: unit_box(-690, 0, 50, 360) });
        walls.push(Obstacle { collider: Collider::Scoreable, body: unit_box(690, 0, 50, 360) });
        let r = World { paddles, balls, walls, scoreboard: Scoreboard::new(), timer: ResetTimer::new() };
        assert(r.paddles@ =~= seq![paddles@[0], paddles@[1]]);
        assert(r.walls@ =~= seq![walls@[0], walls@[1], walls@[2], walls@[3]]);
        assert(r.balls@ =~= seq![balls@[0]]);
        proof {
            crate::ball::lemma_launch_speed();
        }
        r
    }

    /// Advances the match by one frame of `dt` microseconds; `keys` holds,
    /// for each paddle in order, whether its up and its down key are held.
    pub fn step(&mut self, keys: &Vec<(bool, bool)>, dt: u64)
        requires
            old(self)@.wf(),
            old(self)@.room_to_score(),
            keys.len() == old(self).paddles.len(),
        ensures
            final(self)@ == old(self)@.frame(keys@, dt as int),
            final(self)@.wf(),
    {
        proof {
            lemma_frame_keeps_invariant(self@, keys@, dt as nat);
        }
        player_input_system(&mut self.paddles, keys);
        paddle_movement_system(&mut self.paddles, dt);
        ball_movement_system(&mut self.balls, dt);
        let obs = obstacles(&self.paddles, &self.walls);
        proof {
            assert forall|k: int| 0 <= k < self.balls.len() implies negatable(
                #[trigger] self.balls@[k].ball.velocity,
            ) by {
                assert(self.balls@[k].ball == old(self).balls@[k].ball);
            }
        }
        ball_collision_system(&mut self.balls, &obs, &mut self.scoreboard, &mut self.timer);
        proof {
            lemma_struck_all_velocity(balls_moved(old(self).balls@, dt as int), obs@, old(self).scoreboard, old(self).timer);
        }
        ball_reset_system(&mut self.timer, &mut self.balls, dt);
    }
}

} // verus!
