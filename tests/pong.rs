use pong::ball::{ball_movement, Ball, BallEntity, DIAGONAL, MAX_BALL_STEP};
use pong::collision::{bounce, collide, Collider, Collision, Obstacle};
use pong::geometry::{unit_box, Body, Vec2, UNIT};
use pong::paddle::{
    movement_intent, paddle_movement, player_input, Paddle, PaddleMovementState, PADDLE_BOUND,
};
use pong::reset::{ResetTimer, RESET_DELAY};
use pong::score::Scoreboard;
use pong::systems::{ball_collision, ball_collision_system, ball_reset_system, obstacles};
use pong::world::World;

const FRAME: u64 = 100_000;

fn units(v: f64) -> i64 {
    (v * UNIT as f64) as i64
}

#[test]
fn up_key_wins_over_down_key() {
    assert_eq!(movement_intent(true, true), PaddleMovementState::Up);
    assert_eq!(movement_intent(true, false), PaddleMovementState::Up);
    assert_eq!(movement_intent(false, true), PaddleMovementState::Down);
    assert_eq!(movement_intent(false, false), PaddleMovementState::Still);
    let mut p = Paddle::new();
    player_input(&mut p, false, true);
    assert_eq!(p.move_state, PaddleMovementState::Down);
    assert_eq!(p.speed, 200 * UNIT as u64);
}

#[test]
fn paddle_moves_at_its_speed() {
    let mut p = Paddle::new();
    p.move_state = PaddleMovementState::Up;
    assert_eq!(paddle_movement(&p, 0, FRAME), units(20.0));
    p.move_state = PaddleMovementState::Down;
    assert_eq!(paddle_movement(&p, units(100.0), 250_000), units(50.0));
    p.move_state = PaddleMovementState::Still;
    assert_eq!(paddle_movement(&p, units(-12.5), FRAME), units(-12.5));
}

#[test]
fn paddle_is_clamped_to_the_playfield() {
    let mut p = Paddle::new();
    p.move_state = PaddleMovementState::Up;
    assert_eq!(paddle_movement(&p, units(260.0), FRAME), PADDLE_BOUND);
    assert_eq!(paddle_movement(&p, 0, u64::MAX), PADDLE_BOUND);
    p.move_state = PaddleMovementState::Down;
    assert_eq!(paddle_movement(&p, units(-265.0), FRAME), -PADDLE_BOUND);
    p.move_state = PaddleMovementState::Still;
    assert_eq!(paddle_movement(&p, i64::MAX, FRAME), PADDLE_BOUND);
}

#[test]
fn paddles_stay_in_bounds_over_many_frames() {
    let mut w = World::standard();
    let mut seed: u64 = 12345;
    for _ in 0..500 {
        seed = seed.wrapping_mul(6364136223846793005).wrapping_add(1442695040888963407);
        let keys = vec![((seed >> 33) & 1 == 1, (seed >> 34) & 1 == 1), ((seed >> 35) & 1 == 1, (seed >> 36) & 1 == 1)];
        let dt = (seed >> 40) % 400_000;
        w.step(&keys, dt);
        for p in &w.paddles {
            assert!(p.body.center.y >= -PADDLE_BOUND && p.body.center.y <= PADDLE_BOUND);
        }
    }
}

#[test]
fn launch_velocity_has_the_ball_speed() {
    let b = Ball::new();
    assert_eq!(b.velocity, Vec2::new(DIAGONAL, -DIAGONAL));
    let speed = ((b.velocity.x as f64).powi(2) + (b.velocity.y as f64).powi(2)).sqrt();
    assert!((speed / UNIT as f64 - 400.0).abs() < 1e-5);
    assert_eq!(DIAGONAL / 1000, 282_842);
}

#[test]
fn ball_step_is_capped() {
    let b = Ball::new();
    let mut pos = Vec2::zero();
    ball_movement(&b, &mut pos, FRAME);
    assert_eq!(pos, Vec2::new(28_284_271, -28_284_271));
    let mut far = Vec2::zero();
    ball_movement(&b, &mut far, 5_000_000);
    let mut capped = Vec2::zero();
    ball_movement(&b, &mut capped, MAX_BALL_STEP);
    assert_eq!(far, capped);
    assert_eq!(capped, Vec2::new(56_568_542, -56_568_542));
}

#[test]
fn ball_position_saturates() {
    let b = Ball { velocity: Vec2::new(DIAGONAL, -DIAGONAL) };
    let mut pos = Vec2::new(i64::MAX - 5, i64::MIN + 5);
    ball_movement(&b, &mut pos, FRAME);
    assert_eq!(pos, Vec2::new(i64::MAX, i64::MIN));
}

#[test]
fn no_collision_when_apart_or_touching() {
    let a = unit_box(0, 0, 10, 10);
    assert_eq!(collide(&a, &unit_box(100, 0, 10, 10)), None);
    assert_eq!(collide(&a, &unit_box(20, 0, 10, 10)), None);
    assert_eq!(collide(&a, &unit_box(0, 0, 50, 50)), None);
}

#[test]
fn collision_sides() {
    let wall = unit_box(0, 0, 10, 100);
    assert_eq!(collide(&unit_box(-15, 0, 10, 10), &wall), Some(Collision::Left));
    assert_eq!(collide(&unit_box(15, 0, 10, 10), &wall), Some(Collision::Right));
    let floor = unit_box(0, 0, 100, 10);
    assert_eq!(collide(&unit_box(0, 15, 10, 10), &floor), Some(Collision::Top));
    assert_eq!(collide(&unit_box(0, -15, 10, 10), &floor), Some(Collision::Bottom));
}

#[test]
fn corner_collision_takes_the_shallower_side() {
    let b = unit_box(0, 0, 10, 10);
    // 2 deep along x, 5 deep along y: the x face wins.
    assert_eq!(collide(&unit_box(-18, -15, 10, 10), &b), Some(Collision::Left));
    // 5 deep along x, 2 deep along y.
    assert_eq!(collide(&unit_box(-15, -18, 10, 10), &b), Some(Collision::Bottom));
    // Equal depths: the x face wins.
    assert_eq!(collide(&unit_box(15, 15, 10, 10), &b), Some(Collision::Right));
}

#[test]
fn ball_bounces_off_bottom_wall() {
    let wall = Body::new(Vec2::new(0, units(-345.0)), Vec2::new(units(640.0), units(15.0)));
    let ball = Body::new(Vec2::new(0, units(-325.0)), Vec2::new(units(10.0), units(10.0)));
    let side = collide(&ball, &wall).unwrap();
    assert_eq!(side, Collision::Top);
    let mut v = Vec2::new(0, -DIAGONAL);
    let mut pos = ball.center;
    bounce(&mut v, &mut pos, &ball.half, side, &wall);
    assert_eq!(v, Vec2::new(0, DIAGONAL));
    assert_eq!(pos, Vec2::new(0, units(-320.0)));
}

#[test]
fn reflection_is_idempotent() {
    let paddle = unit_box(600, 0, 10, 60);
    let ball = unit_box(585, 0, 10, 10);
    let side = collide(&ball, &paddle).unwrap();
    assert_eq!(side, Collision::Left);
    let mut v = Vec2::new(DIAGONAL, DIAGONAL);
    let mut pos = ball.center;
    bounce(&mut v, &mut pos, &ball.half, side, &paddle);
    assert_eq!(v, Vec2::new(-DIAGONAL, DIAGONAL));
    assert_eq!(pos, Vec2::new(units(580.0), 0));
    let (v_once, pos_once) = (v, pos);
    bounce(&mut v, &mut pos, &ball.half, side, &paddle);
    assert_eq!((v, pos), (v_once, pos_once));
    assert_eq!(collide(&Body::new(pos, ball.half), &paddle), None);
}

#[test]
fn moving_away_is_not_reflected() {
    let wall = unit_box(0, 0, 10, 100);
    let ball = unit_box(15, 0, 10, 10);
    let mut v = Vec2::new(DIAGONAL, -DIAGONAL);
    let mut pos = ball.center;
    bounce(&mut v, &mut pos, &ball.half, Collision::Right, &wall);
    assert_eq!(v, Vec2::new(DIAGONAL, -DIAGONAL));
    assert_eq!(pos, ball.center);
}

#[test]
fn goal_scores_by_side_of_ball() {
    let mut s = Scoreboard::new();
    s.award_goal(5);
    assert_eq!((s.left, s.right), (1, 0));
    s.award_goal(-5);
    assert_eq!((s.left, s.right), (1, 1));
    s.award_goal(0);
    assert_eq!((s.left, s.right), (1, 1));
}

#[test]
fn goals_add_up() {
    let mut s = Scoreboard::new();
    let xs = [3, -1, 0, 7, 9, -2, 0, 4];
    for x in xs {
        let before = (s.left, s.right);
        s.award_goal(x);
        let inc = (s.left - before.0, s.right - before.1);
        if x == 0 {
            assert_eq!(inc, (0, 0));
        } else {
            assert_eq!(inc.0 + inc.1, 1);
        }
    }
    assert_eq!((s.left, s.right), (4, 2));
}

#[test]
fn scoreboard_text() {
    let mut s = Scoreboard::new();
    assert_eq!(s.text(), "0 0");
    s.left = 10;
    s.right = 3;
    assert_eq!(s.text(), "10 3");
    s.left = u64::MAX;
    assert_eq!(s.text(), "18446744073709551615 3");
}

#[test]
fn timer_fires_once_after_the_delay() {
    let mut t = ResetTimer::new();
    assert_eq!(t.duration, RESET_DELAY);
    assert!(!t.tick(3_000_000));
    t.arm();
    assert_eq!((t.elapsed, t.armed), (0, true));
    assert!(!t.tick(1_900_000));
    assert!(t.armed);
    assert!(t.tick(100_000));
    assert!(!t.armed);
    assert_eq!(t.elapsed, RESET_DELAY);
    assert!(!t.tick(100_000));
    assert!(!t.tick(5_000_000));
}

#[test]
fn reset_system_relaunches_every_ball() {
    let mut t = ResetTimer::new();
    t.arm();
    let frozen = BallEntity { ball: Ball { velocity: Vec2::zero() }, body: unit_box(0, 0, 10, 10) };
    let mut balls = vec![frozen, frozen];
    assert!(!ball_reset_system(&mut t, &mut balls, 1_999_999));
    assert_eq!(balls[0].ball.velocity, Vec2::zero());
    assert!(ball_reset_system(&mut t, &mut balls, 1));
    assert_eq!(balls[0].ball.velocity, Vec2::new(DIAGONAL, -DIAGONAL));
    assert_eq!(balls[1].ball.velocity, Vec2::new(DIAGONAL, -DIAGONAL));
    balls[0].ball.velocity = Vec2::zero();
    assert!(!ball_reset_system(&mut t, &mut balls, 3_000_000));
    assert_eq!(balls[0].ball.velocity, Vec2::zero());
}

#[test]
fn scoreable_hit_freezes_ball_and_arms_timer() {
    let goal = Obstacle { collider: Collider::Scoreable, body: unit_box(-690, 0, 50, 360) };
    let wall = Obstacle { collider: Collider::Solid, body: unit_box(0, -345, 640, 15) };
    let obs = vec![wall, goal];
    let mut b = BallEntity { ball: Ball { velocity: Vec2::new(-DIAGONAL, DIAGONAL) }, body: unit_box(-735, 0, 10, 10) };
    let mut board = Scoreboard::new();
    let mut t = ResetTimer::new();
    ball_collision(&mut b, &obs, &mut board, &mut t);
    assert_eq!((board.left, board.right), (0, 1));
    assert_eq!(b.ball.velocity, Vec2::zero());
    assert_eq!(b.body.center, Vec2::zero());
    assert!(t.armed);
    assert_eq!(t.elapsed, 0);
}

#[test]
fn only_first_obstacle_hit_is_resolved() {
    let a = Obstacle { collider: Collider::Solid, body: unit_box(20, 0, 10, 100) };
    let goal = Obstacle { collider: Collider::Scoreable, body: unit_box(0, 20, 100, 10) };
    let mut balls = vec![BallEntity { ball: Ball { velocity: Vec2::new(DIAGONAL, DIAGONAL) }, body: unit_box(5, 5, 10, 10) }];
    let mut board = Scoreboard::new();
    let mut t = ResetTimer::new();
    ball_collision_system(&mut balls, &vec![a, goal], &mut board, &mut t);
    assert_eq!(balls[0].ball.velocity, Vec2::new(-DIAGONAL, DIAGONAL));
    assert_eq!(balls[0].body.center, Vec2::new(0, units(5.0)));
    assert_eq!((board.left, board.right), (0, 0));
    assert!(!t.armed);
}

#[test]
fn obstacles_list_paddles_first() {
    let w = World::standard();
    let obs = obstacles(&w.paddles, &w.walls);
    assert_eq!(obs.len(), 6);
    assert_eq!(obs[0], Obstacle { collider: Collider::Solid, body: w.paddles[0].body });
    assert_eq!(obs[1].body.center, Vec2::new(units(600.0), 0));
    assert_eq!(obs[4].collider, Collider::Scoreable);
}

#[test]
fn ball_speed_is_full_or_zero_in_every_frame() {
    let mut w = World::standard();
    let keys = vec![(false, false), (false, false)];
    for _ in 0..300 {
        w.step(&keys, FRAME);
        let v = w.balls[0].ball.velocity;
        if w.timer.armed {
            assert_eq!(v, Vec2::zero());
        } else {
            assert_eq!(v.x.abs(), DIAGONAL);
            assert_eq!(v.y.abs(), DIAGONAL);
        }
    }
}

#[test]
fn standard_opening_scores_for_the_left_player() {
    let mut w = World::standard();
    let keys = vec![(false, false), (false, false)];
    let mut frames = 0;
    while w.scoreboard.left == 0 {
        w.step(&keys, FRAME);
        frames += 1;
        assert!(frames < 100);
        assert!(w.balls[0].body.center.x > units(-610.0) || w.scoreboard.right >= 1);
    }
    assert_eq!((w.scoreboard.left, w.scoreboard.right), (1, 0));
    assert_eq!(w.balls[0].body.center, Vec2::zero());
    assert_eq!(w.balls[0].ball.velocity, Vec2::zero());
    assert_eq!(w.scoreboard.text(), "1 0");
}

#[test]
fn bottom_wall_bounce_in_a_match() {
    let mut w = World::standard();
    w.balls[0].body.center = Vec2::new(0, units(-300.0));
    w.balls[0].ball.velocity = Vec2::new(0, -DIAGONAL);
    w.step(&vec![(false, false), (false, false)], FRAME);
    assert_eq!(w.balls[0].body.center, Vec2::new(0, units(-320.0)));
    assert_eq!(w.balls[0].ball.velocity, Vec2::new(0, DIAGONAL));
}

#[test]
fn leftward_ball_scores_for_the_right_player_and_relaunches_after_delay() {
    let mut w = World::standard();
    w.balls[0].ball.velocity = Vec2::new(-DIAGONAL, -DIAGONAL);
    let keys = vec![(false, false), (false, false)];
    let mut frames = 0;
    while w.scoreboard.right == 0 {
        w.step(&keys, FRAME);
        frames += 1;
        assert!(frames < 100);
    }
    assert_eq!((w.scoreboard.left, w.scoreboard.right), (0, 1));
    assert_eq!(w.balls[0].body.center, Vec2::zero());
    assert_eq!(w.balls[0].ball.velocity, Vec2::zero());
    assert!(w.timer.armed);
    // The goal frame already counted one frame of the delay.
    for _ in 0..18 {
        w.step(&keys, FRAME);
        assert_eq!(w.balls[0].ball.velocity, Vec2::zero());
        assert!(w.timer.armed);
    }
    w.step(&keys, FRAME);
    assert_eq!(w.balls[0].ball.velocity, Vec2::new(DIAGONAL, -DIAGONAL));
    assert!(!w.timer.armed);
}

#[test]
fn held_key_moves_paddle_in_a_match() {
    let mut w = World::standard();
    w.step(&vec![(true, false), (false, true)], 500_000);
    assert_eq!(w.paddles[0].body.center.y, units(100.0));
    assert_eq!(w.paddles[1].body.center.y, units(-100.0));
    assert_eq!(w.paddles[0].paddle.move_state, PaddleMovementState::Up);
    for _ in 0..10 {
        w.step(&vec![(true, false), (false, true)], 500_000);
    }
    assert_eq!(w.paddles[0].body.center.y, PADDLE_BOUND);
    assert_eq!(w.paddles[1].body.center.y, -PADDLE_BOUND);
}
