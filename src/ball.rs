//! Ball kinematics: the ball's velocity, its launch velocity, and moving it
//! through one frame.
use vstd::prelude::*;
use crate::geometry::{displacement, displacement_of, saturate, saturate_i64, Body, Vec2};

verus! {

/// Speed of a moving ball, in micro-units per second.
pub const BALL_SPEED: i64 = 400_000_000;

/// Each component of the launch velocity: the ball speed over the square
/// root of two, rounded down to a whole micro-unit per second.
pub const DIAGONAL: i64 = 282_842_712;

/// Longest stretch of time, in microseconds, that one frame moves the ball
/// for, so that a stalled frame cannot carry it through a thin obstacle.
pub const MAX_BALL_STEP: u64 = 200_000;

#[derive(Clone, Copy, Debug, PartialEq, Eq, Structural)]
pub struct Ball {
    /// Micro-units per second.
    pub velocity: Vec2,
}

/// A ball together with the box it occupies.
#[derive(Clone, Copy, Debug, PartialEq, Eq, Structural)]
pub struct BallEntity {
    pub ball: Ball,
    pub body: Body,
}

/// The launch velocity: full speed along the diagonal `(1, -1)`.
pub open spec fn launch_velocity() -> Vec2 {
    Vec2 { x: DIAGONAL, y: (-DIAGONAL) as i64 }
}

/// A velocity that the ball may have: at rest, or at full speed along one of
/// the four diagonals.
pub open spec fn is_ball_velocity(v: Vec2) -> bool {
    (v.x == 0 && v.y == 0) || ((v.x == DIAGONAL || v.x == -DIAGONAL) && (v.y == DIAGONAL
        || v.y == -DIAGONAL))
}

/// The time a frame of `dt` microseconds moves the ball for.
pub open spec fn ball_step(dt: int) -> int {
    if dt < MAX_BALL_STEP {
        dt
    } else {
        MAX_BALL_STEP as int
    }
}

/// Where a ball at `pos` with velocity `v` is after a frame of `dt`
/// microseconds.
pub open spec fn moved_ball(pos: Vec2, v: Vec2, dt: int) -> Vec2 {
    Vec2 {
        x: saturate(pos.x + displacement(v.x as int, ball_step(dt))) as i64,
        y: saturate(pos.y + displacement(v.y as int, ball_step(dt))) as i64,
    }
}

/// `DIAGONAL` is the largest whole number `d` for which the velocity `(d, d)`
/// is no faster than `BALL_SPEED`: the launch speed equals the ball speed up
/// to rounding.
pub proof fn lemma_launch_speed()
    ensures
        2 * DIAGONAL * DIAGONAL <= BALL_SPEED * BALL_SPEED,
        BALL_SPEED * BALL_SPEED < 2 * (DIAGONAL + 1) * (DIAGONAL + 1),
        is_ball_velocity(launch_velocity()),
{
    assert(2 * DIAGONAL * DIAGONAL <= BALL_SPEED * BALL_SPEED) by (nonlinear_arith);
    assert(BALL_SPEED * BALL_SPEED < 2 * (DIAGONAL + 1) * (DIAGONAL + 1)) by (nonlinear_arith);
}

impl Ball {
    /// A ball about to be launched.
    pub fn new() -> (r: Ball)
        ensures
            r.velocity == launch_velocity(),
    {
        Ball { velocity: Vec2 { x: DIAGONAL, y: (-DIAGONAL) as i64 } }
    }
}

/// Moves the ball at `pos` by its velocity through a frame of `dt`
/// microseconds, counting at most `MAX_BALL_STEP` of them.
pub fn ball_movement(ball: &Ball, pos: &mut Vec2, dt: u64)
    ensures
        *final(pos) == moved_ball(*old(pos), ball.velocity, dt as int),
{
    let step: u64 = if dt < MAX_BALL_STEP {
        dt
    } else {
        MAX_BALL_STEP
    };
    let dx = displacement_of(ball.velocity.x, step);
    let dy = displacement_of(ball.velocity.y, step);
    pos.x = saturate_i64(pos.x as i128 + dx);
    pos.y = saturate_i64(pos.y as i128 + dy);
}

} // verus!
