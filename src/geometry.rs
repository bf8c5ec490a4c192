//! Fixed-point vectors, screen wrapping and circle-circle contact.

use vstd::prelude::*;

verus! {

/// Fixed-point units per pixel: a coordinate of `SCALE` is one pixel.
pub const SCALE: i64 = 1000;

/// No coordinate ever leaves `[-COORD_LIMIT, COORD_LIMIT]`; moves saturate there.
pub const COORD_LIMIT: i64 = 1_000_000_000_000;

/// Largest screen extent, in fixed-point units.
pub const SCREEN_LIMIT: i64 = 1_000_000_000;

/// Largest contact reach (sum of two radii), in fixed-point units.
pub const REACH_LIMIT: i64 = 1_000_000;

/// A point or displacement in fixed-point units.
#[derive(Clone, Copy, Debug, PartialEq, Eq, Structural)]
pub struct Vec2 {
    pub x: i64,
    pub y: i64,
}

pub open spec fn coord_ok(c: int) -> bool {
    -COORD_LIMIT <= c <= COORD_LIMIT
}

impl Vec2 {
    /// Both coordinates are within the coordinate limit.
    pub open spec fn wf(self) -> bool {
        coord_ok(self.x as int) && coord_ok(self.y as int)
    }

    /// Both components lie in `[-m, m]`.
    pub open spec fn bounded_by(self, m: int) -> bool {
        -m <= self.x <= m && -m <= self.y <= m
    }

    /// Squared Euclidean length.
    pub open spec fn norm_sq(self) -> int {
        self.x * self.x + self.y * self.y
    }

    pub fn new(x: i64, y: i64) -> (r: Vec2)
        ensures
            r.x == x,
            r.y == y,
    {
        Vec2 { x, y }
    }

    /// The opposite vector.
    pub fn neg(self) -> (r: Vec2)
        requires
            self.bounded_by(COORD_LIMIT as int),
        ensures
            r.x == -self.x,
            r.y == -self.y,
    {
        Vec2 { x: -self.x, y: -self.y }
    }
}

/// The opposite of `v`.
pub open spec fn opposite(v: Vec2) -> Vec2 {
    Vec2 { x: (-v.x) as i64, y: (-v.y) as i64 }
}

/// `v * num / den`, rounded toward zero.
pub open spec fn mul_div_spec(v: int, num: int, den: int) -> int {
    scaled_part(v, num, den)
}

/// `v * num / den`, rounded toward zero.
pub fn mul_div(v: i64, num: i64, den: i64) -> (r: i64)
    requires
        -SCREEN_LIMIT <= v <= SCREEN_LIMIT,
        0 <= num <= REACH_LIMIT,
        0 < den,
    ensures
        r == mul_div_spec(v as int, num as int, den as int),
{
    let m: i64 = if v >= 0 { v } else { -v };
    assert(0 <= m * num <= SCREEN_LIMIT * REACH_LIMIT) by (nonlinear_arith)
        requires
            0 <= m <= SCREEN_LIMIT,
            0 <= num <= REACH_LIMIT,
    ;
    let q: i64 = m * num / den;
    if v >= 0 {
        q
    } else {
        -q
    }
}

/// The screen's extent: coordinates run from `0` to `width` and `height`.
#[derive(Clone, Copy, Debug, PartialEq, Eq, Structural)]
pub struct Screen {
    pub width: i64,
    pub height: i64,
}

impl Screen {
    pub open spec fn wf(self) -> bool {
        SCALE <= self.width <= SCREEN_LIMIT && SCALE <= self.height <= SCREEN_LIMIT
    }

    /// A screen of the given size in pixels.
    pub fn from_pixels(width: u32, height: u32) -> (r: Screen)
        requires
            0 < width,
            0 < height,
            width <= 1_000_000,
            height <= 1_000_000,
        ensures
            r.wf(),
            r.width == width * SCALE,
            r.height == height * SCALE,
    {
        Screen { width: width as i64 * SCALE, height: height as i64 * SCALE }
    }
}

/// `v` saturated into `[-COORD_LIMIT, COORD_LIMIT]`.
pub open spec fn clamp_coord_spec(v: int) -> int {
    if v < -COORD_LIMIT {
        -COORD_LIMIT as int
    } else if v > COORD_LIMIT {
        COORD_LIMIT as int
    } else {
        v
    }
}

pub fn clamp_coord(v: i64) -> (r: i64)
    requires
        -4 * COORD_LIMIT <= v <= 4 * COORD_LIMIT,
    ensures
        r == clamp_coord_spec(v as int),
        coord_ok(r as int),
{
    if v < -COORD_LIMIT {
        -COORD_LIMIT
    } else if v > COORD_LIMIT {
        COORD_LIMIT
    } else {
        v
    }
}

/// `p` moved by `d`, each coordinate saturated at the coordinate limit.
pub open spec fn translated(p: Vec2, d: Vec2) -> Vec2 {
    Vec2 {
        x: clamp_coord_spec(p.x + d.x) as i64,
        y: clamp_coord_spec(p.y + d.y) as i64,
    }
}

pub fn translate(p: Vec2, d: Vec2) -> (r: Vec2)
    requires
        p.wf(),
        d.bounded_by(COORD_LIMIT as int),
    ensures
        r == translated(p, d),
        r.wf(),
{
    Vec2 { x: clamp_coord(p.x + d.x), y: clamp_coord(p.y + d.y) }
}

/// The wrap rule on one axis: a coordinate below zero becomes `max - coord`,
/// one beyond `max` becomes `coord - max`, any other stays.
pub open spec fn bound_to_spec(coord: int, max: int) -> int {
    if coord < 0 {
        max - coord
    } else if coord > max {
        coord - max
    } else {
        coord
    }
}

/// Applies the wrap rule to one coordinate (saturated at the coordinate limit).
pub fn bound_to(coord: i64, max: i64) -> (r: i64)
    requires
        coord_ok(coord as int),
        0 < max <= SCREEN_LIMIT,
    ensures
        r == clamp_coord_spec(bound_to_spec(coord as int, max as int)),
        coord_ok(r as int),
{
    if coord < 0 {
        clamp_coord(max - coord)
    } else if coord > max {
        coord - max
    } else {
        coord
    }
}

/// A position after wrapping both axes to the screen.
pub open spec fn wrapped(p: Vec2, screen: Screen) -> Vec2 {
    Vec2 {
        x: clamp_coord_spec(bound_to_spec(p.x as int, screen.width as int)) as i64,
        y: clamp_coord_spec(bound_to_spec(p.y as int, screen.height as int)) as i64,
    }
}

pub fn wrap(p: Vec2, screen: Screen) -> (r: Vec2)
    requires
        p.wf(),
        screen.wf(),
    ensures
        r == wrapped(p, screen),
        r.wf(),
{
    Vec2 { x: bound_to(p.x, screen.width), y: bound_to(p.y, screen.height) }
}

/// Away from the negative coordinate limit (by more than a screen extent)
/// the wrap rule applies exactly, with no saturation.
pub proof fn lemma_wrap_exact(coord: int, max: int)
    requires
        0 < max <= SCREEN_LIMIT,
        max - COORD_LIMIT <= coord <= COORD_LIMIT,
    ensures
        clamp_coord_spec(bound_to_spec(coord, max)) == bound_to_spec(coord, max),
{
}

/// Wrapping keeps a coordinate that crossed at most one screen extent within
/// `[0, 2 * max]`: one below zero lands in `(max, 2 * max]`, one beyond `max`
/// lands in `(0, max]`, and one on the screen does not move.
pub proof fn lemma_wrap_bounds(coord: int, max: int)
    requires
        0 < max <= SCREEN_LIMIT,
        -max <= coord <= 2 * max,
    ensures
        clamp_coord_spec(bound_to_spec(coord, max)) == bound_to_spec(coord, max),
        0 <= bound_to_spec(coord, max) <= 2 * max,
        coord < 0 ==> max < bound_to_spec(coord, max) <= 2 * max,
        coord > max ==> 0 < bound_to_spec(coord, max) <= max,
        0 <= coord <= max ==> bound_to_spec(coord, max) == coord,
{
}


/// `r` is the smallest non-negative integer whose square is at least `n`.
pub open spec fn is_ceil_sqrt(r: int, n: int) -> bool {
    0 <= r && n <= r * r && (r == 0 || (r - 1) * (r - 1) < n)
}

/// The rounded-up square root of `n`.
pub open spec fn ceil_sqrt_spec(n: int) -> int {
    choose|r: int| is_ceil_sqrt(r, n)
}

proof fn lemma_ceil_sqrt_unique(a: int, b: int, n: int)
    requires
        is_ceil_sqrt(a, n),
        is_ceil_sqrt(b, n),
    ensures
        a == b,
{
    if a < b {
        assert((b - 1) * (b - 1) >= a * a) by (nonlinear_arith)
            requires
                0 <= a <= b - 1,
        ;
    } else if b < a {
        assert((a - 1) * (a - 1) >= b * b) by (nonlinear_arith)
            requires
                0 <= b <= a - 1,
        ;
    }
}

proof fn lemma_ceil_sqrt_exists(n: int, k: int)
    requires
        0 <= k,
        0 <= n <= k * k,
    ensures
        is_ceil_sqrt(ceil_sqrt_spec(n), n),
    decreases k,
{
    if k == 0 {
        assert(is_ceil_sqrt(0, n));
    } else if n <= (k - 1) * (k - 1) {
        lemma_ceil_sqrt_exists(n, k - 1);
    } else {
        assert(is_ceil_sqrt(k, n));
    }
}

proof fn lemma_ceil_sqrt_is(r: int, n: int)
    requires
        is_ceil_sqrt(r, n),
    ensures
        ceil_sqrt_spec(n) == r,
{
    let c = ceil_sqrt_spec(n);
    assert(is_ceil_sqrt(c, n));
    lemma_ceil_sqrt_unique(c, r, n);
}

/// Largest input of [`ceil_sqrt`].
pub const SQRT_INPUT_LIMIT: i64 = 1_000_000_000_000;

/// The rounded-up square root, by bisection.
pub fn ceil_sqrt(n: i64) -> (r: i64)
    requires
        0 <= n <= SQRT_INPUT_LIMIT,
    ensures
        is_ceil_sqrt(r as int, n as int),
        r == ceil_sqrt_spec(n as int),
        0 <= r <= 1_000_000,
{
    if n == 0 {
        proof {
            lemma_ceil_sqrt_is(0, 0);
        }
        return 0;
    }
    let mut lo: i64 = 0;
    let mut hi: i64 = 1_000_000;
    while hi - lo > 1
        invariant
            0 <= lo < hi <= 1_000_000,
            lo * lo < n,
            n <= hi * hi,
        decreases hi - lo,
    {
        let mid: i64 = lo + (hi - lo) / 2;
        assert(0 <= mid * mid <= 1_000_000_000_000) by (nonlinear_arith)
            requires
                0 <= mid <= 1_000_000,
        ;
        if mid * mid < n {
            lo = mid;
        } else {
            hi = mid;
        }
    }
    proof {
        lemma_ceil_sqrt_is(hi as int, n as int);
    }
    hi
}

/// Squared distance between two points.
pub open spec fn dist_sq(p1: Vec2, p2: Vec2) -> int {
    (p2.x - p1.x) * (p2.x - p1.x) + (p2.y - p1.y) * (p2.y - p1.y)
}

/// Two circles whose radii sum to `reach` overlap: their centres are closer
/// than `reach`.
pub open spec fn overlapping(p1: Vec2, p2: Vec2, reach: int) -> bool {
    dist_sq(p1, p2) < reach * reach
}

/// The centre distance, rounded up.
pub open spec fn distance_spec(p1: Vec2, p2: Vec2) -> int {
    ceil_sqrt_spec(dist_sq(p1, p2))
}

/// How far two overlapping circles sink into each other.
pub open spec fn overlap_spec(p1: Vec2, p2: Vec2, reach: int) -> int {
    reach - distance_spec(p1, p2)
}

/// `d * len / dist`, rounded toward zero.
pub open spec fn scaled_part(d: int, len: int, dist: int) -> int {
    if d >= 0 {
        d * len / dist
    } else {
        -((-d) * len / dist)
    }
}

/// The push given to the second of two overlapping circles (the first gets
/// its opposite): half the overlap, along the line from the first centre to
/// the second. Coincident centres are pushed apart along the x axis.
pub open spec fn correction_spec(p1: Vec2, p2: Vec2, reach: int) -> Vec2 {
    let half = overlap_spec(p1, p2, reach) / 2;
    if dist_sq(p1, p2) == 0 {
        Vec2 { x: half as i64, y: 0 }
    } else {
        let dist = distance_spec(p1, p2);
        Vec2 {
            x: scaled_part(p2.x - p1.x, half, dist) as i64,
            y: scaled_part(p2.y - p1.y, half, dist) as i64,
        }
    }
}

/// What a contact test returns: the second circle's push when they overlap.
pub open spec fn contact_spec(p1: Vec2, p2: Vec2, reach: int) -> Option<Vec2> {
    if overlapping(p1, p2, reach) {
        Some(correction_spec(p1, p2, reach))
    } else {
        None
    }
}

proof fn lemma_far_apart(d: int, e: int, reach: int)
    requires
        0 < reach,
        d <= -reach || reach <= d,
    ensures
        d * d + e * e >= reach * reach,
{
    assert(d * d >= reach * reach) by (nonlinear_arith)
        requires
            0 < reach,
            d <= -reach || reach <= d,
    ;
    assert(e * e >= 0) by (nonlinear_arith);
}

proof fn lemma_sqrt_below_reach(n: int, reach: int)
    requires
        0 <= n < reach * reach,
        0 < reach,
    ensures
        0 <= ceil_sqrt_spec(n) <= reach,
        is_ceil_sqrt(ceil_sqrt_spec(n), n),
{
    lemma_ceil_sqrt_exists(n, reach);
    let r = ceil_sqrt_spec(n);
    if n > 0 {
        assert(r > reach ==> (r - 1) * (r - 1) >= reach * reach) by (nonlinear_arith)
            requires
                0 < reach,
        ;
    }
}

/// `d * len / dist` with the sign of `d`, for `0 <= len` and `|d| <= dist`.
fn scale_part(d: i64, len: i64, dist: i64) -> (r: i64)
    requires
        0 < dist <= REACH_LIMIT,
        0 <= len <= REACH_LIMIT,
        -dist <= d <= dist,
    ensures
        r == scaled_part(d as int, len as int, dist as int),
        -len <= r <= len,
{
    if d >= 0 {
        assert(0 <= d * len <= dist * len) by (nonlinear_arith)
            requires
                0 <= d <= dist,
                0 <= len,
        ;
        assert(dist * len <= REACH_LIMIT * REACH_LIMIT) by (nonlinear_arith)
            requires
                0 < dist <= REACH_LIMIT,
                0 <= len <= REACH_LIMIT,
        ;
        assert((d * len) as int / (dist as int) <= len) by (nonlinear_arith)
            requires
                0 <= d * len <= dist * len,
                0 < dist,
        ;
        d * len / dist
    } else {
        let m = -d;
        assert(0 <= m * len <= dist * len) by (nonlinear_arith)
            requires
                0 <= m <= dist,
                0 <= len,
        ;
        assert(dist * len <= REACH_LIMIT * REACH_LIMIT) by (nonlinear_arith)
            requires
                0 < dist <= REACH_LIMIT,
                0 <= len <= REACH_LIMIT,
        ;
        assert((m * len) as int / (dist as int) <= len) by (nonlinear_arith)
            requires
                0 <= m * len <= dist * len,
                0 < dist,
        ;
        -(m * len / dist)
    }
}

/// Tests two circles whose radii sum to `reach` for overlap and, if they
/// overlap, returns the push for the second one (the first takes its opposite).
pub fn contact(p1: Vec2, p2: Vec2, reach: i64) -> (r: Option<Vec2>)
    requires
        p1.wf(),
        p2.wf(),
        0 < reach <= REACH_LIMIT,
    ensures
        r == contact_spec(p1, p2, reach as int),
        r matches Some(c) ==> c.bounded_by(reach as int),
{
    let dx = p2.x - p1.x;
    let dy = p2.y - p1.y;
    if dx <= -reach || reach <= dx {
        proof {
            lemma_far_apart(dx as int, dy as int, reach as int);
        }
        return None;
    }
    if dy <= -reach || reach <= dy {
        proof {
            lemma_far_apart(dy as int, dx as int, reach as int);
        }
        return None;
    }
    assert(0 <= dx * dx <= reach * reach && 0 <= dy * dy <= reach * reach) by (nonlinear_arith)
        requires
            -reach < dx < reach,
            -reach < dy < reach,
    ;
    assert(reach * reach <= REACH_LIMIT * REACH_LIMIT) by (nonlinear_arith)
        requires
            0 < reach <= REACH_LIMIT,
    ;
    let n = dx * dx + dy * dy;
    if n >= reach * reach {
        return None;
    }
    let dist = ceil_sqrt(n);
    proof {
        lemma_sqrt_below_reach(n as int, reach as int);
    }
    let half = (reach - dist) / 2;
    if n == 0 {
        return Some(Vec2 { x: half, y: 0 });
    }
    assert(-dist <= dx <= dist && -dist <= dy <= dist) by (nonlinear_arith)
        requires
            dx * dx + dy * dy <= dist * dist,
            0 <= dist,
            dy * dy >= 0,
            dx * dx >= 0,
    ;
    let cx = scale_part(dx, half, dist);
    let cy = scale_part(dy, half, dist);
    Some(Vec2 { x: cx, y: cy })
}

/// When the two centres lie on a horizontal line, each circle is pushed by
/// exactly half the overlap (rounded down), straight away from the other, so
/// together the two pushes make up the whole overlap whenever it is even.
pub proof fn lemma_correction_exact_on_axis(p1: Vec2, p2: Vec2, reach: int)
    requires
        p1.wf(),
        p2.wf(),
        0 < reach <= REACH_LIMIT,
        overlapping(p1, p2, reach),
        p1.y == p2.y,
    ensures
        correction_spec(p1, p2, reach).y == 0,
        p1.x <= p2.x ==> correction_spec(p1, p2, reach).x == overlap_spec(p1, p2, reach) / 2,
        p1.x > p2.x ==> correction_spec(p1, p2, reach).x == -(overlap_spec(p1, p2, reach) / 2),
{
    let dx = p2.x - p1.x;
    let n = dist_sq(p1, p2);
    let m = if dx >= 0 { dx } else { -dx };
    assert(n == m * m) by (nonlinear_arith)
        requires
            n == dx * dx + 0 * 0,
            m == dx || m == -dx,
    ;
    assert(n == dx * dx + (p2.y - p1.y) * (p2.y - p1.y));
    assert(is_ceil_sqrt(m, n)) by {
        if m > 0 {
            assert((m - 1) * (m - 1) < m * m) by (nonlinear_arith)
                requires
                    m > 0,
            ;
        }
    }
    lemma_ceil_sqrt_is(m, n);
    lemma_sqrt_below_reach(n, reach);
    let half = overlap_spec(p1, p2, reach) / 2;
    if n != 0 {
        assert(m > 0);
        assert(m * half / m == half) by (nonlinear_arith)
            requires
                m > 0,
        ;
        assert(0 * half / m == 0) by (nonlinear_arith)
            requires
                m > 0,
        ;
    } else {
        assert(m == 0);
    }
}

/// Two overlapping circles are pushed apart symmetrically: each receives a
/// correction of the same size in opposite directions, the two together never
/// exceed the overlap, and the overlap is positive.
pub proof fn lemma_correction_symmetric(p1: Vec2, p2: Vec2, reach: int)
    requires
        p1.wf(),
        p2.wf(),
        0 < reach <= REACH_LIMIT,
        overlapping(p1, p2, reach),
    ensures
        0 <= overlap_spec(p1, p2, reach) <= reach,
        4 * correction_spec(p1, p2, reach).norm_sq() <= overlap_spec(p1, p2, reach)
            * overlap_spec(p1, p2, reach),
{
    let n = dist_sq(p1, p2);
    let dx = p2.x - p1.x;
    let dy = p2.y - p1.y;
    assert(n >= 0) by (nonlinear_arith)
        requires
            n == dx * dx + dy * dy,
    ;
    lemma_sqrt_below_reach(n, reach);
    let dist = ceil_sqrt_spec(n);
    assert(is_ceil_sqrt(dist, n));
    let ov = overlap_spec(p1, p2, reach);
    let half = ov / 2;
    let c = correction_spec(p1, p2, reach);
    if n == 0 {
        assert(4 * (half * half) <= ov * ov) by (nonlinear_arith)
            requires
                half == ov / 2,
                0 < ov,
        ;
    } else {
        let cx = scaled_part(dx, half, dist);
        let cy = scaled_part(dy, half, dist);
        assert(dist > 0) by (nonlinear_arith)
            requires
                0 < n <= dist * dist,
                0 <= dist,
        ;
        assert(-dist <= dx <= dist && -dist <= dy <= dist) by (nonlinear_arith)
            requires
                dx * dx + dy * dy <= dist * dist,
                0 <= dist,
        ;
        lemma_scaled_part_bound(dx, half, dist);
        lemma_scaled_part_bound(dy, half, dist);
        assert(c.x == cx && c.y == cy);
        assert(4 * (cx * cx + cy * cy) <= ov * ov) by (nonlinear_arith)
            requires
                dist * dist * (cx * cx) <= dx * dx * (half * half),
                dist * dist * (cy * cy) <= dy * dy * (half * half),
                dx * dx + dy * dy <= dist * dist,
                0 < dist,
                0 <= half,
                2 * half <= ov,
        ;
    }
}

proof fn lemma_scaled_part_bound(d: int, len: int, dist: int)
    requires
        0 < dist,
        0 <= len,
        -dist <= d <= dist,
    ensures
        -len <= scaled_part(d, len, dist) <= len,
        dist * dist * (scaled_part(d, len, dist) * scaled_part(d, len, dist)) <= d * d * (len
            * len),
{
    let m = if d >= 0 { d } else { -d };
    let q = m * len / dist;
    assert(0 <= q && dist * q <= m * len) by (nonlinear_arith)
        requires
            q == m * len / dist,
            0 <= m,
            0 <= len,
            0 < dist,
    ;
    assert(q <= len) by (nonlinear_arith)
        requires
            0 <= m <= dist,
            0 <= len,
            dist * q <= m * len,
            0 < dist,
    ;
    assert(dist * dist * (q * q) <= m * m * (len * len)) by (nonlinear_arith)
        requires
            0 <= q,
            0 <= dist * q <= m * len,
    ;
    assert(scaled_part(d, len, dist) * scaled_part(d, len, dist) == q * q) by (nonlinear_arith)
        requires
            scaled_part(d, len, dist) == q || scaled_part(d, len, dist) == -q,
    ;
    assert(m * m == d * d) by (nonlinear_arith)
        requires
            m == d || m == -d,
    ;
}

} // verus!
