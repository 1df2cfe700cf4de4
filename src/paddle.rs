//! Paddle control: turning held keys into a movement intent, and moving a
//! paddle by its intent within the playfield.
use vstd::prelude::*;
use crate::geometry::{clamp, UNIT};

verus! {

/// Farthest a paddle's center may stray from the middle line, in micro-units.
pub const PADDLE_BOUND: i64 = 270_000_000;

/// Speed of a paddle, in micro-units per second.
pub const PADDLE_SPEED: u64 = 200_000_000;

/// Which way a paddle's player asks it to move this frame.
#[derive(Clone, Copy, Debug, PartialEq, Eq, Structural)]
pub enum PaddleMovementState {
    Up,
    Down,
    Still,
}

#[derive(Clone, Copy, Debug, PartialEq, Eq, Structural)]
pub struct Paddle {
    pub move_state: PaddleMovementState,
    /// Micro-units per second.
    pub speed: u64,
}

impl Paddle {
    /// A resting paddle at the standard speed.
    pub fn new() -> (r: Paddle)
        ensures
            r.move_state == PaddleMovementState::Still,
            r.speed == PADDLE_SPEED,
    {
        Paddle { move_state: PaddleMovementState::Still, speed: PADDLE_SPEED }
    }
}

/// The intent for a player holding (or not) the up and the down key: up wins
/// when both are held.
pub open spec fn intent(up_held: bool, down_held: bool) -> PaddleMovementState {
    if up_held {
        PaddleMovementState::Up
    } else if down_held {
        PaddleMovementState::Down
    } else {
        PaddleMovementState::Still
    }
}

/// The height of a paddle at `y` after one frame of `dt` microseconds.
pub open spec fn moved_paddle_y(state: PaddleMovementState, speed: int, y: int, dt: int) -> int {
    let step = speed * dt / (UNIT as int);
    let raw = match state {
        PaddleMovementState::Up => y + step,
        PaddleMovementState::Down => y - step,
        PaddleMovementState::Still => y,
    };
    clamp(raw, -PADDLE_BOUND, PADDLE_BOUND as int)
}

pub fn movement_intent(up_held: bool, down_held: bool) -> (r: PaddleMovementState)
    ensures
        r == intent(up_held, down_held),
{
    if up_held {
        PaddleMovementState::Up
    } else if down_held {
        PaddleMovementState::Down
    } else {
        PaddleMovementState::Still
    }
}

/// Sets the paddle's intent from the state of its player's two keys.
pub fn player_input(paddle: &mut Paddle, up_held: bool, down_held: bool)
    ensures
        final(paddle).move_state == intent(up_held, down_held),
        final(paddle).speed == old(paddle).speed,
{
    paddle.move_state = movement_intent(up_held, down_held);
}

/// The paddle's new height after a frame of `dt` microseconds: moved by its
/// intent at its speed, then kept within the playfield.
pub fn paddle_movement(paddle: &Paddle, y: i64, dt: u64) -> (r: i64)
    ensures
        r == moved_paddle_y(paddle.move_state, paddle.speed as int, y as int, dt as int),
        -PADDLE_BOUND <= r <= PADDLE_BOUND,
{
    assert((paddle.speed as int) * (dt as int) <= (u64::MAX as int) * (u64::MAX as int))
        by (nonlinear_arith)
        requires
            0 <= paddle.speed <= u64::MAX,
            0 <= dt <= u64::MAX,
    ;
    let prod: u128 = paddle.speed as u128 * dt as u128;
    let step: i128 = (prod / (UNIT as u128)) as i128;
    let raw: i128 = match paddle.move_state {
        PaddleMovementState::Up => y as i128 + step,
        PaddleMovementState::Down => y as i128 - step,
        PaddleMovementState::Still => y as i128,
    };
    if raw < -(PADDLE_BOUND as i128) {
        -PADDLE_BOUND
    } else if raw > PADDLE_BOUND as i128 {
        PADDLE_BOUND
    } else {
        raw as i64
    }
}

} // verus!
