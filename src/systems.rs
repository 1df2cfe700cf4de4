//! The per-frame systems, each over the entities it reads and writes.
use vstd::prelude::*;
use crate::ball::{ball_movement, launch_velocity, moved_ball, Ball, BallEntity};
use crate::collision::{bounce, bounced, collide, collision_of, negatable, Collider, Collision, Obstacle};
use crate::geometry::{Body, Vec2};
use crate::paddle::{intent, moved_paddle_y, movement_intent, paddle_movement, Paddle};
use crate::reset::ResetTimer;
use crate::score::{after_goal, Scoreboard};

verus! {

/// A paddle together with the box it occupies.
#[derive(Clone, Copy, Debug, PartialEq, Eq, Structural)]
pub struct PaddleEntity {
    pub paddle: Paddle,
    pub body: Body,
}

/// The first obstacle, from index `i` on, that the box `a` hits: its index
/// and the face hit.
pub open spec fn first_hit(a: Body, obs: Seq<Obstacle>, i: int) -> Option<(int, Collision)>
    decreases obs.len() - i,
{
    if i < 0 || i >= obs.len() {
        None
    } else {
        match collision_of(a, obs[i].body) {
            Some(c) => Some((i, c)),
            None => first_hit(a, obs, i + 1),
        }
    }
}

/// The first obstacle that the box `a` hits is a goal.
pub open spec fn hits_goal(a: Body, obs: Seq<Obstacle>) -> bool {
    match first_hit(a, obs, 0) {
        Some((i, _)) => obs[i].collider == Collider::Scoreable,
        None => false,
    }
}

/// The ball, scoreboard and reset timer after the ball `b` meets the first
/// obstacle that it hits, if any. A scoring obstacle counts a goal, stops
/// the ball at the origin and arms the timer; then the ball bounces off the
/// face hit.
pub open spec fn struck(b: BallEntity, obs: Seq<Obstacle>, board: Scoreboard, timer: ResetTimer) -> (
    BallEntity,
    Scoreboard,
    ResetTimer,
) {
    match first_hit(b.body, obs, 0) {
        None => (b, board, timer),
        Some((i, c)) => {
            let o = obs[i];
            let scored = o.collider == Collider::Scoreable;
            let v0 = if scored {
                Vec2 { x: 0, y: 0 }
            } else {
                b.ball.velocity
            };
            let pos0 = if scored {
                Vec2 { x: 0, y: 0 }
            } else {
                b.body.center
            };
            let board1 = if scored {
                after_goal(board, b.body.center.x as int)
            } else {
                board
            };
            let timer1 = if scored {
                timer.armed_now()
            } else {
                timer
            };
            let (v1, pos1) = bounced(v0, pos0, b.body.half, c, o.body);
            (
                BallEntity { ball: Ball { velocity: v1 }, body: Body { center: pos1, half: b.body.half } },
                board1,
                timer1,
            )
        },
    }
}

/// `struck` applied to each ball in turn, each one seeing the scoreboard and
/// timer that the balls before it left.
pub open spec fn struck_all(
    balls: Seq<BallEntity>,
    obs: Seq<Obstacle>,
    board: Scoreboard,
    timer: ResetTimer,
) -> (Seq<BallEntity>, Scoreboard, ResetTimer)
    decreases balls.len(),
{
    if balls.len() == 0 {
        (Seq::empty(), board, timer)
    } else {
        let (done, b, t) = struck_all(balls.drop_last(), obs, board, timer);
        let (nb, b2, t2) = struck(balls.last(), obs, b, t);
        (done.push(nb), b2, t2)
    }
}

/// Resolves the ball's collision with the first obstacle, in order, that it
/// hits this frame; the others are not looked at.
pub fn ball_collision(
    b: &mut BallEntity,
    obstacles: &Vec<Obstacle>,
    board: &mut Scoreboard,
    timer: &mut ResetTimer,
)
    requires
        negatable(old(b).ball.velocity),
        old(board).left < u64::MAX,
        old(board).right < u64::MAX,
    ensures
        (*final(b), *final(board), *final(timer)) == struck(*old(b), obstacles@, *old(board), *old(timer)),
        negatable(final(b).ball.velocity),
        final(board).left <= old(board).left + 1,
        final(board).right <= old(board).right + 1,
        final(b).body.half == old(b).body.half,
{
    let mut i: usize = 0;
    let mut hit: Option<(usize, Collision)> = None;
    while i < obstacles.len()
        invariant_except_break
            hit.is_none(),
        invariant
            i <= obstacles.len(),
            first_hit(b.body, obstacles@, 0) == first_hit(b.body, obstacles@, i as int),
        ensures
            match hit {
                Some((j, c)) => first_hit(b.body, obstacles@, 0) == Some((j as int, c)) && j < obstacles.len(),
                None => first_hit(b.body, obstacles@, 0) is None,
            },
        decreases obstacles.len() - i,
    {
        match collide(&b.body, &obstacles[i].body) {
            Some(c) => {
                hit = Some((i, c));
                break;
            },
            None => {},
        }
        i = i + 1;
    }
    match hit {
        None => {},
        Some((j, c)) => {
            let other = obstacles[j];
            if let Collider::Scoreable = other.collider {
                board.award_goal(b.body.center.x);
                b.ball.velocity = Vec2::zero();
                b.body.center = Vec2::zero();
                timer.arm();
            }
            let half = b.body.half;
            bounce(&mut b.ball.velocity, &mut b.body.center, &half, c, &other.body);
        },
    }
}

/// Runs the collision step for every ball, in order.
pub fn ball_collision_system(
    balls: &mut Vec<BallEntity>,
    obstacles: &Vec<Obstacle>,
    board: &mut Scoreboard,
    timer: &mut ResetTimer,
)
    requires
        forall|k: int| 0 <= k < old(balls).len() ==> negatable(#[trigger] old(balls)[k].ball.velocity),
        old(board).left + old(balls).len() <= u64::MAX,
        old(board).right + old(balls).len() <= u64::MAX,
    ensures
        (final(balls)@, *final(board), *final(timer)) == struck_all(old(balls)@, obstacles@, *old(board), *old(timer)),
{
    let ghost start = balls@;
    let ghost board0 = *board;
    let ghost timer0 = *timer;
    let mut i: usize = 0;
    while i < balls.len()
        invariant
            i <= balls.len() == start.len(),
            forall|k: int| i <= k < start.len() ==> balls@[k] == start[k],
            forall|k: int| 0 <= k < start.len() ==> negatable(#[trigger] start[k].ball.velocity),
            board.left + (start.len() - i) <= u64::MAX,
            board.right + (start.len() - i) <= u64::MAX,
            (balls@.take(i as int), *board, *timer) == struck_all(start.take(i as int), obstacles@, board0, timer0),
        decreases balls.len() - i,
    {
        let mut b = balls[i];
        assert(negatable(start[i as int].ball.velocity));
        ball_collision(&mut b, obstacles, board, timer);
        balls.set(i, b);
        assert(start.take(i + 1).drop_last() =~= start.take(i as int));
        assert(balls@.take(i + 1) =~= balls@.take(i as int).push(b));
        i = i + 1;
    }
    assert(balls@.take(i as int) =~= balls@);
    assert(start.take(i as int) =~= start);
}

/// The paddles with their intents set from `keys`, one `(up, down)` pair of
/// held keys per paddle.
pub open spec fn paddles_after_input(ps: Seq<PaddleEntity>, keys: Seq<(bool, bool)>) -> Seq<PaddleEntity> {
    Seq::new(
        ps.len(),
        |k: int|
            PaddleEntity {
                paddle: Paddle { move_state: intent(keys[k].0, keys[k].1), speed: ps[k].paddle.speed },
                body: ps[k].body,
            },
    )
}

/// The paddles after moving through a frame of `dt` microseconds.
pub open spec fn paddles_moved(ps: Seq<PaddleEntity>, dt: int) -> Seq<PaddleEntity> {
    Seq::new(
        ps.len(),
        |k: int|
            PaddleEntity {
                paddle: ps[k].paddle,
                body: Body {
                    center: Vec2 {
                        x: ps[k].body.center.x,
                        y: moved_paddle_y(
                            ps[k].paddle.move_state,
                            ps[k].paddle.speed as int,
                            ps[k].body.center.y as int,
                            dt,
                        ) as i64,
                    },
                    half: ps[k].body.half,
                },
            },
    )
}

/// The balls after moving through a frame of `dt` microseconds.
pub open spec fn balls_moved(bs: Seq<BallEntity>, dt: int) -> Seq<BallEntity> {
    Seq::new(
        bs.len(),
        |k: int|
            BallEntity {
                ball: bs[k].ball,
                body: Body { center: moved_ball(bs[k].body.center, bs[k].ball.velocity, dt), half: bs[k].body.half },
            },
    )
}

/// The balls, all relaunched.
pub open spec fn balls_relaunched(bs: Seq<BallEntity>) -> Seq<BallEntity> {
    Seq::new(bs.len(), |k: int| BallEntity { ball: Ball { velocity: launch_velocity() }, body: bs[k].body })
}

/// What the ball can hit: the paddles, as solid obstacles, then the walls and
/// goals.
pub open spec fn obstacles_of(ps: Seq<PaddleEntity>, walls: Seq<Obstacle>) -> Seq<Obstacle> {
    Seq::new(ps.len(), |k: int| Obstacle { collider: Collider::Solid, body: ps[k].body }) + walls
}

/// Sets each paddle's intent from its player's keys.
pub fn player_input_system(paddles: &mut Vec<PaddleEntity>, keys: &Vec<(bool, bool)>)
    requires
        keys.len() == old(paddles).len(),
    ensures
        final(paddles)@ == paddles_after_input(old(paddles)@, keys@),
{
    let ghost start = paddles@;
    let mut i: usize = 0;
    while i < paddles.len()
        invariant
            i <= paddles.len() == start.len() == keys.len(),
            forall|k: int| i <= k < start.len() ==> paddles@[k] == start[k],
            forall|k: int| 0 <= k < i ==> paddles@[k] == #[trigger] paddles_after_input(start, keys@)[k],
        decreases paddles.len() - i,
    {
        let mut p = paddles[i];
        let (up, down) = keys[i];
        p.paddle.move_state = movement_intent(up, down);
        paddles.set(i, p);
        i = i + 1;
    }
    assert(paddles@ =~= paddles_after_input(start, keys@));
}

/// Moves each paddle by its intent through a frame of `dt` microseconds.
pub fn paddle_movement_system(paddles: &mut Vec<PaddleEntity>, dt: u64)
    ensures
        final(paddles)@ == paddles_moved(old(paddles)@, dt as int),
{
    let ghost start = paddles@;
    let mut i: usize = 0;
    while i < paddles.len()
        invariant
            i <= paddles.len() == start.len(),
            forall|k: int| i <= k < start.len() ==> paddles@[k] == start[k],
            forall|k: int| 0 <= k < i ==> paddles@[k] == #[trigger] paddles_moved(start, dt as int)[k],
        decreases paddles.len() - i,
    {
        let mut p = paddles[i];
        p.body.center.y = paddle_movement(&p.paddle, p.body.center.y, dt);
        paddles.set(i, p);
        i = i + 1;
    }
    assert(paddles@ =~= paddles_moved(start, dt as int));
}

/// Moves each ball by its velocity through a frame of `dt` microseconds.
pub fn ball_movement_system(balls: &mut Vec<BallEntity>, dt: u64)
    ensures
        final(balls)@ == balls_moved(old(balls)@, dt as int),
{
    let ghost start = balls@;
    let mut i: usize = 0;
    while i < balls.len()
        invariant
            i <= balls.len() == start.len(),
            forall|k: int| i <= k < start.len() ==> balls@[k] == start[k],
            forall|k: int| 0 <= k < i ==> balls@[k] == #[trigger] balls_moved(start, dt as int)[k],
        decreases balls.len() - i,
    {
        let mut b = balls[i];
        ball_movement(&b.ball, &mut b.body.center, dt);
        balls.set(i, b);
        i = i + 1;
    }
    assert(balls@ =~= balls_moved(start, dt as int));
}

/// Counts a frame of `dt` microseconds on the reset timer and, when the
/// relaunch comes, relaunches every ball. Returns whether it came.
pub fn ball_reset_system(timer: &mut ResetTimer, balls: &mut Vec<BallEntity>, dt: u64) -> (fired: bool)
    requires
        old(timer).wf(),
    ensures
        fired == old(timer).fires(dt as int),
        *final(timer) == old(timer).ticked(dt as int),
        final(timer).wf(),
        final(balls)@ == if fired {
            balls_relaunched(old(balls)@)
        } else {
            old(balls)@
        },
{
    let fired = timer.tick(dt);
    if fired {
        let ghost start = balls@;
        let mut i: usize = 0;
        while i < balls.len()
            invariant
                i <= balls.len() == start.len(),
                forall|k: int| i <= k < start.len() ==> balls@[k] == start[k],
                forall|k: int| 0 <= k < i ==> balls@[k] == #[trigger] balls_relaunched(start)[k],
            decreases balls.len() - i,
        {
            let mut b = balls[i];
            b.ball = Ball::new();
            balls.set(i, b);
            i = i + 1;
        }
        assert(balls@ =~= balls_relaunched(start));
    }
    fired
}

/// The obstacles of a frame: the paddles, as solid obstacles, then `walls`.
pub fn obstacles(paddles: &Vec<PaddleEntity>, walls: &Vec<Obstacle>) -> (r: Vec<Obstacle>)
    ensures
        r@ == obstacles_of(paddles@, walls@),
{
    let mut r: Vec<Obstacle> = Vec::new();
    let mut i: usize = 0;
    while i < paddles.len()
        invariant
            i <= paddles.len(),
            r@ =~= Seq::new(i as nat, |k: int| Obstacle { collider: Collider::Solid, body: paddles@[k].body }),
        decreases paddles.len() - i,
    {
        r.push(Obstacle { collider: Collider::Solid, body: paddles[i].body });
        i = i + 1;
    }
    let mut j: usize = 0;
    while j < walls.len()
        invariant
            j <= walls.len(),
            i == paddles.len(),
            r@ =~= Seq::new(i as nat, |k: int| Obstacle { collider: Collider::Solid, body: paddles@[k].body }) + walls@.take(j as int),
        decreases walls.len() - j,
    {
        r.push(walls[j]);
        j = j + 1;
    }
    assert(walls@.take(j as int) =~= walls@);
    r
}

} // verus!
