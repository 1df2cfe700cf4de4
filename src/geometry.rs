//! Fixed-point plane geometry shared by every system of the simulation.
//!
//! Lengths are measured in micro-units (one millionth of a playfield unit),
//! durations in microseconds, and velocities in micro-units per second.
use vstd::prelude::*;

verus! {

/// Micro-units in one playfield unit; also microseconds in one second.
pub const UNIT: i64 = 1_000_000;

/// A point or a vector of the plane, in micro-units.
#[derive(Clone, Copy, Debug, PartialEq, Eq, Structural)]
pub struct Vec2 {
    pub x: i64,
    pub y: i64,
}

impl Vec2 {
    pub fn new(x: i64, y: i64) -> (r: Vec2)
        ensures
            r.x == x,
            r.y == y,
    {
        Vec2 { x, y }
    }

    pub fn zero() -> (r: Vec2)
        ensures
            r.x == 0,
            r.y == 0,
    {
        Vec2 { x: 0, y: 0 }
    }
}

/// An axis-aligned box: its center and its half-width and half-height.
#[derive(Clone, Copy, Debug, PartialEq, Eq, Structural)]
pub struct Body {
    pub center: Vec2,
    pub half: Vec2,
}

impl Body {
    pub fn new(center: Vec2, half: Vec2) -> (r: Body)
        ensures
            r.center == center,
            r.half == half,
    {
        Body { center, half }
    }
}

/// `v` forced into the range of `i64`.
pub open spec fn saturate(v: int) -> int {
    if v < i64::MIN {
        i64::MIN as int
    } else if v > i64::MAX {
        i64::MAX as int
    } else {
        v
    }
}

/// `v` forced into `[lo, hi]`.
pub open spec fn clamp(v: int, lo: int, hi: int) -> int {
    if v < lo {
        lo
    } else if v > hi {
        hi
    } else {
        v
    }
}

/// The displacement after moving at `speed` micro-units per second for `dt`
/// microseconds, rounded toward zero so that opposite speeds give opposite
/// displacements.
pub open spec fn displacement(speed: int, dt: int) -> int {
    if speed >= 0 {
        speed * dt / (UNIT as int)
    } else {
        -((-speed) * dt / (UNIT as int))
    }
}

pub fn saturate_i64(v: i128) -> (r: i64)
    ensures
        r == saturate(v as int),
{
    if v < i64::MIN as i128 {
        i64::MIN
    } else if v > i64::MAX as i128 {
        i64::MAX
    } else {
        v as i64
    }
}

/// Displacement of a speed held for `dt` microseconds, where `dt` is at most
/// a few hours, so that the exact product fits.
pub fn displacement_of(speed: i64, dt: u64) -> (r: i128)
    requires
        dt <= u32::MAX,
    ensures
        r == displacement(speed as int, dt as int),
        -0x1_0000_0000_0000_0000_0000_0000 <= r <= 0x1_0000_0000_0000_0000_0000_0000,
{
    let s: i128 = speed as i128;
    let d: i128 = dt as i128;
    if s >= 0 {
        assert(0 <= s * d <= (i64::MAX as int) * (u32::MAX as int)) by (nonlinear_arith)
            requires
                0 <= s <= i64::MAX,
                0 <= d <= u32::MAX,
        ;
        (s * d) / (UNIT as i128)
    } else {
        assert(0 <= (-s) * d <= (i64::MAX as int + 1) * (u32::MAX as int)) by (nonlinear_arith)
            requires
                0 < -s <= i64::MAX as int + 1,
                0 <= d <= u32::MAX,
        ;
        -(((-s) * d) / (UNIT as i128))
    }
}

/// The box centered at `(cx, cy)` with half-width `hx` and half-height `hy`,
/// all given in whole playfield units.
pub fn unit_box(cx: i64, cy: i64, hx: i64, hy: i64) -> (r: Body)
    requires
        -1_000_000_000 <= cx <= 1_000_000_000,
        -1_000_000_000 <= cy <= 1_000_000_000,
        -1_000_000_000 <= hx <= 1_000_000_000,
        -1_000_000_000 <= hy <= 1_000_000_000,
    ensures
        r.center.x == cx * UNIT,
        r.center.y == cy * UNIT,
        r.half.x == hx * UNIT,
        r.half.y == hy * UNIT,
{
    Body { center: Vec2 { x: cx * UNIT, y: cy * UNIT }, half: Vec2 { x: hx * UNIT, y: hy * UNIT } }
}

} // verus!
