//! Random draws.

use rand::Rng;
use vstd::prelude::*;

use crate::geometry::{Vec2, SCALE};

verus! {

/// Relies on rand's `Rng::gen_range` over `thread_rng()`: for a non-empty
/// inclusive range it returns a value inside it (it panics on an empty one).
#[verifier::external_body]
pub(crate) fn random_in(lo: i64, hi: i64) -> (r: i64)
    requires
        lo <= hi,
    ensures
        lo <= r <= hi,
{
    rand::thread_rng().gen_range(lo..=hi)
}

/// A fixed-point vector within one percent of unit length, as [`random_direction`] draws it.
pub open spec fn is_direction(v: Vec2) -> bool {
    DIRECTION_INNER * DIRECTION_INNER <= v.norm_sq() <= SCALE * SCALE
}

/// Shortest length accepted for a direction.
pub const DIRECTION_INNER: i64 = 990;

const DIRECTION_TRIES: u32 = 1000;

/// The point `(x, y)`, if it lies in the ring of accepted directions.
pub open spec fn candidate_spec(x: int, y: int) -> Option<Vec2> {
    if DIRECTION_INNER * DIRECTION_INNER <= x * x + y * y <= SCALE * SCALE {
        Some(Vec2 { x: x as i64, y: y as i64 })
    } else {
        None
    }
}

/// Accepts the drawn point `(x, y)` as a direction if it lies in the ring
/// between `DIRECTION_INNER` and `SCALE` from the origin.
pub fn direction_candidate(x: i64, y: i64) -> (r: Option<Vec2>)
    ensures
        r == candidate_spec(x as int, y as int),
{
    if x < -SCALE || x > SCALE || y < -SCALE || y > SCALE {
        assert(x * x + y * y > SCALE * SCALE) by (nonlinear_arith)
            requires
                x < -SCALE || x > SCALE || y < -SCALE || y > SCALE,
        ;
        return None;
    }
    assert(0 <= x * x <= SCALE * SCALE && 0 <= y * y <= SCALE * SCALE) by (nonlinear_arith)
        requires
            -SCALE <= x <= SCALE,
            -SCALE <= y <= SCALE,
    ;
    let n = x * x + y * y;
    if DIRECTION_INNER * DIRECTION_INNER <= n && n <= SCALE * SCALE {
        Some(Vec2 { x, y })
    } else {
        None
    }
}

/// The direction used when every draw misses the ring: straight right.
pub open spec fn fallback_direction() -> Vec2 {
    Vec2 { x: SCALE, y: 0 }
}

/// A random direction of (nearly) unit length, uniform in angle: points of
/// the square `[-SCALE, SCALE]²` are drawn until one is accepted by
/// [`direction_candidate`]. Should every draw miss, the direction is
/// [`fallback_direction`].
pub fn random_direction() -> (v: Vec2)
    ensures
        v == fallback_direction() || exists|x: int, y: int|
            -SCALE <= x <= SCALE && -SCALE <= y <= SCALE && #[trigger] candidate_spec(x, y)
                == Some(v),
        is_direction(v),
        v.bounded_by(SCALE as int),
{
    let mut tries: u32 = 0;
    while tries < DIRECTION_TRIES
        decreases DIRECTION_TRIES - tries,
    {
        let x = random_in(-SCALE, SCALE);
        let y = random_in(-SCALE, SCALE);
        match direction_candidate(x, y) {
            Some(v) => {
                assert(candidate_spec(x as int, y as int) == Some(v));
                return v;
            },
            None => {},
        }
        tries = tries + 1;
    }
    Vec2 { x: SCALE, y: 0 }
}

} // verus!
