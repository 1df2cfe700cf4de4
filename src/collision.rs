//! Collision detection between axis-aligned boxes, and the ball's response
//! to a contact.
use vstd::prelude::*;
use crate::geometry::{saturate, saturate_i64, Body, Vec2};

verus! {

/// How an obstacle takes part in collisions.
#[derive(Clone, Copy, Debug, PartialEq, Eq, Structural)]
pub enum Collider {
    /// Bounces the ball.
    Solid,
    /// Bounces the ball and scores a goal.
    Scoreable,
}

/// The side of an obstacle that a moving box ran into.
#[derive(Clone, Copy, Debug, PartialEq, Eq, Structural)]
pub enum Collision {
    /// The obstacle's left face (smallest x).
    Left,
    /// The obstacle's right face (largest x).
    Right,
    /// The obstacle's top face (largest y).
    Top,
    /// The obstacle's bottom face (smallest y).
    Bottom,
}

/// An obstacle: its collider kind and its box.
#[derive(Clone, Copy, Debug, PartialEq, Eq, Structural)]
pub struct Obstacle {
    pub collider: Collider,
    pub body: Body,
}

pub open spec fn min_x(b: Body) -> int {
    b.center.x - b.half.x
}

pub open spec fn max_x(b: Body) -> int {
    b.center.x + b.half.x
}

pub open spec fn min_y(b: Body) -> int {
    b.center.y - b.half.y
}

pub open spec fn max_y(b: Body) -> int {
    b.center.y + b.half.y
}

/// The two boxes share interior points.
pub open spec fn overlaps(a: Body, b: Body) -> bool {
    min_x(a) < max_x(b) && max_x(a) > min_x(b) && min_y(a) < max_y(b) && max_y(a) > min_y(b)
}

/// The face of `b` that `a` sticks into along x, with how deep, if `a`
/// crosses exactly one of `b`'s vertical faces.
pub open spec fn x_contact(a: Body, b: Body) -> Option<(Collision, int)> {
    if min_x(a) < min_x(b) && max_x(a) > min_x(b) && max_x(a) < max_x(b) {
        Some((Collision::Left, max_x(a) - min_x(b)))
    } else if min_x(a) > min_x(b) && min_x(a) < max_x(b) && max_x(a) > max_x(b) {
        Some((Collision::Right, max_x(b) - min_x(a)))
    } else {
        None
    }
}

/// The face of `b` that `a` sticks into along y, with how deep, if `a`
/// crosses exactly one of `b`'s horizontal faces.
pub open spec fn y_contact(a: Body, b: Body) -> Option<(Collision, int)> {
    if min_y(a) < min_y(b) && max_y(a) > min_y(b) && max_y(a) < max_y(b) {
        Some((Collision::Bottom, max_y(a) - min_y(b)))
    } else if min_y(a) > min_y(b) && min_y(a) < max_y(b) && max_y(a) > max_y(b) {
        Some((Collision::Top, max_y(b) - min_y(a)))
    } else {
        None
    }
}

/// The face of `b` that the box `a` hit: none unless the boxes overlap; where
/// `a` crosses a face along both axes, the one it sticks into less deeply,
/// and the vertical one on a tie. A box that crosses no face of `b` (along
/// each axis it lies within `b`, or spans it) has hit no face.
pub open spec fn collision_of(a: Body, b: Body) -> Option<Collision> {
    if !overlaps(a, b) {
        None
    } else {
        match (x_contact(a, b), y_contact(a, b)) {
            (Some((xc, xd)), Some((yc, yd))) => if yd < xd {
                Some(yc)
            } else {
                Some(xc)
            },
            (Some((xc, _)), None) => Some(xc),
            (None, Some((yc, _))) => Some(yc),
            (None, None) => None,
        }
    }
}

/// The ball's velocity and center after it meets face `side` of `other`: the
/// velocity component that drives it into that face is reversed and the ball
/// is put flush against the face; a ball already moving away is left as it is.
pub open spec fn bounced(v: Vec2, pos: Vec2, ball_half: Vec2, side: Collision, other: Body) -> (
    Vec2,
    Vec2,
) {
    match side {
        Collision::Left => if v.x > 0 {
            (
                Vec2 { x: (-v.x) as i64, y: v.y },
                Vec2 { x: saturate(min_x(other) - ball_half.x) as i64, y: pos.y },
            )
        } else {
            (v, pos)
        },
        Collision::Right => if v.x < 0 {
            (
                Vec2 { x: (-v.x) as i64, y: v.y },
                Vec2 { x: saturate(max_x(other) + ball_half.x) as i64, y: pos.y },
            )
        } else {
            (v, pos)
        },
        Collision::Top => if v.y < 0 {
            (
                Vec2 { x: v.x, y: (-v.y) as i64 },
                Vec2 { x: pos.x, y: saturate(max_y(other) + ball_half.y) as i64 },
            )
        } else {
            (v, pos)
        },
        Collision::Bottom => if v.y > 0 {
            (
                Vec2 { x: v.x, y: (-v.y) as i64 },
                Vec2 { x: pos.x, y: saturate(min_y(other) - ball_half.y) as i64 },
            )
        } else {
            (v, pos)
        },
    }
}

/// A velocity whose components can be negated within `i64`.
pub open spec fn negatable(v: Vec2) -> bool {
    v.x != i64::MIN && v.y != i64::MIN
}

/// Which face of `b`, if any, the box `a` hit.
pub fn collide(a: &Body, b: &Body) -> (r: Option<Collision>)
    ensures
        r == collision_of(*a, *b),
{
    let a_min_x = a.center.x as i128 - a.half.x as i128;
    let a_max_x = a.center.x as i128 + a.half.x as i128;
    let a_min_y = a.center.y as i128 - a.half.y as i128;
    let a_max_y = a.center.y as i128 + a.half.y as i128;
    let b_min_x = b.center.x as i128 - b.half.x as i128;
    let b_max_x = b.center.x as i128 + b.half.x as i128;
    let b_min_y = b.center.y as i128 - b.half.y as i128;
    let b_max_y = b.center.y as i128 + b.half.y as i128;
    if !(a_min_x < b_max_x && a_max_x > b_min_x && a_min_y < b_max_y && a_max_y > b_min_y) {
        return None;
    }
    let x_side: Option<(Collision, i128)> = if a_min_x < b_min_x && a_max_x > b_min_x && a_max_x
        < b_max_x {
        Some((Collision::Left, a_max_x - b_min_x))
    } else if a_min_x > b_min_x && a_min_x < b_max_x && a_max_x > b_max_x {
        Some((Collision::Right, b_max_x - a_min_x))
    } else {
        None
    };
    let y_side: Option<(Collision, i128)> = if a_min_y < b_min_y && a_max_y > b_min_y && a_max_y
        < b_max_y {
        Some((Collision::Bottom, a_max_y - b_min_y))
    } else if a_min_y > b_min_y && a_min_y < b_max_y && a_max_y > b_max_y {
        Some((Collision::Top, b_max_y - a_min_y))
    } else {
        None
    };
    match (x_side, y_side) {
        (Some((xc, xd)), Some((yc, yd))) => if yd < xd {
            Some(yc)
        } else {
            Some(xc)
        },
        (Some((xc, _)), None) => Some(xc),
        (None, Some((yc, _))) => Some(yc),
        (None, None) => None,
    }
}

/// Turns the ball with velocity `v` at `pos` away from face `side` of
/// `other`.
pub fn bounce(v: &mut Vec2, pos: &mut Vec2, ball_half: &Vec2, side: Collision, other: &Body)
    requires
        negatable(*old(v)),
    ensures
        (*final(v), *final(pos)) == bounced(*old(v), *old(pos), *ball_half, side, *other),
        negatable(*final(v)),
{
    match side {
        Collision::Left => {
            if v.x > 0 {
                v.x = -v.x;
                pos.x = saturate_i64(other.center.x as i128 - other.half.x as i128
                    - ball_half.x as i128);
            }
        },
        Collision::Right => {
            if v.x < 0 {
                v.x = -v.x;
                pos.x = saturate_i64(other.center.x as i128 + other.half.x as i128
                    + ball_half.x as i128);
            }
        },
        Collision::Top => {
            if v.y < 0 {
                v.y = -v.y;
                pos.y = saturate_i64(other.center.y as i128 + other.half.y as i128
                    + ball_half.y as i128);
            }
        },
        Collision::Bottom => {
            if v.y > 0 {
                v.y = -v.y;
                pos.y = saturate_i64(other.center.y as i128 - other.half.y as i128
                    - ball_half.y as i128);
            }
        },
    }
}

/// The ball's velocity `v` drives it into face `side`.
pub open spec fn drives_into(v: Vec2, side: Collision) -> bool {
    match side {
        Collision::Left => v.x > 0,
        Collision::Right => v.x < 0,
        Collision::Top => v.y < 0,
        Collision::Bottom => v.y > 0,
    }
}

/// Bouncing is idempotent: a ball driven into a face has the component that
/// drove it reversed and the other kept, so that it moves away from the face;
/// meeting the same face again then changes nothing.
pub proof fn lemma_bounce_idempotent(v: Vec2, pos: Vec2, ball_half: Vec2, side: Collision, other: Body)
    requires
        drives_into(v, side),
        negatable(v),
    ensures
        !drives_into(bounced(v, pos, ball_half, side, other).0, side),
        match side {
            Collision::Left | Collision::Right => bounced(v, pos, ball_half, side, other).0 == Vec2 { x: (-v.x) as i64, y: v.y },
            Collision::Top | Collision::Bottom => bounced(v, pos, ball_half, side, other).0 == Vec2 { x: v.x, y: (-v.y) as i64 },
        },
        bounced(
            bounced(v, pos, ball_half, side, other).0,
            bounced(v, pos, ball_half, side, other).1,
            ball_half,
            side,
            other,
        ) == bounced(v, pos, ball_half, side, other),
{
}

/// A ball put flush against the left face of an obstacle no longer overlaps
/// it, so the next collision test against that obstacle finds nothing.
pub proof fn lemma_left_bounce_clears(v: Vec2, ball: Body, other: Body)
    requires
        v.x > 0,
        i64::MIN <= min_x(other) - ball.half.x,
    ensures
        collision_of(
            Body { center: bounced(v, ball.center, ball.half, Collision::Left, other).1, half: ball.half },
            other,
        ) is None,
{
}

} // verus!
