use vstd::prelude::*;

verus! {

use crate::num::{abs_i64, abs_val, div_trunc_128, half, third, trunc_div, trunc_half};
use crate::point::{coord_ok, Point, MAX_COORD, UNIT};
use crate::segment::{segment_ok, Segment};

/// Hard cap on subdivision depth by default: past it a call accepts the
/// current approximation silently.
pub const RECURSION_LIMIT: u32 = 32;

/// One quarter turn in the integer angle scale. Directions are measured as
/// piecewise-rational "diamond angles": monotone in the true angle, with a
/// full turn equal to four quarters. A half turn stands for pi radians.
pub const QUARTER_TURN: i64 = 0x1_0000;

/// A half turn (pi radians) in the angle scale.
pub const HALF_TURN: i64 = 0x2_0000;

/// A full turn in the angle scale.
pub const FULL_TURN: i64 = 0x4_0000;

/// An angle tolerance below this threshold (about 0.01 radians) leaves the
/// angle test disabled.
pub const ANGLE_TOLERANCE_EPSILON: i64 = 417;

/// Squared Euclidean distance between two points given by coordinates.
pub open spec fn sq_distance(x1: int, y1: int, x2: int, y2: int) -> int {
    (x2 - x1) * (x2 - x1) + (y2 - y1) * (y2 - y1)
}

/// The cross-product deviation of probe point (px, py) from the chord
/// (x1, y1)-(x4, y4): twice the signed area of the triangle they span.
pub open spec fn chord_cross(px: int, py: int, x1: int, y1: int, x4: int, y4: int) -> int {
    (px - x4) * (y4 - y1) - (py - y4) * (x4 - x1)
}

/// The projection numerator of probe point (px, py) onto the chord from
/// (x1, y1) along (dx, dy); the projection parameter is this over dx^2 + dy^2.
pub open spec fn chord_dot(px: int, py: int, x1: int, y1: int, dx: int, dy: int) -> int {
    (px - x1) * dx + (py - y1) * dy
}

/// Midpoint of two coordinates, rounded toward zero.
pub open spec fn mid_val(a: i64, b: i64) -> i64 {
    trunc_half(a + b) as i64
}

/// The direction angle of vector (x, y) as a diamond angle in [0, FULL_TURN]:
/// the fraction |y| / (|x| + |y|) of a quarter turn, placed in its quadrant.
/// The zero vector is assigned angle 0.
pub open spec fn tau(x: int, y: int) -> int {
    if x == 0 && y == 0 {
        0
    } else {
        let t = (abs_val(y) * QUARTER_TURN) / (abs_val(x) + abs_val(y));
        if x >= 0 && y >= 0 {
            t
        } else if x < 0 && y >= 0 {
            2 * QUARTER_TURN - t
        } else if x < 0 {
            2 * QUARTER_TURN + t
        } else {
            4 * QUARTER_TURN - t
        }
    }
}

/// The unsigned turn from direction u to direction v, wrapped into
/// [0, HALF_TURN].
pub open spec fn turn_between(ux: int, uy: int, vx: int, vy: int) -> int {
    let d = abs_val(tau(vx, vy) - tau(ux, uy));
    if d >= 2 * QUARTER_TURN {
        4 * QUARTER_TURN - d
    } else {
        d
    }
}

/// Squared Euclidean distance between two points given by coordinates.
pub fn calc_sq_distance(x1: i64, y1: i64, x2: i64, y2: i64) -> (r: i64)
    requires
        -4 * MAX_COORD <= x1 <= 4 * MAX_COORD,
        -4 * MAX_COORD <= y1 <= 4 * MAX_COORD,
        -4 * MAX_COORD <= x2 <= 4 * MAX_COORD,
        -4 * MAX_COORD <= y2 <= 4 * MAX_COORD,
    ensures
        r == sq_distance(x1 as int, y1 as int, x2 as int, y2 as int),
        0 <= r <= 0x80_0000_0000_0000,
{
    let dx = x2 - x1;
    let dy = y2 - y1;
    proof {
        assert(dx * dx <= 0x40_0000_0000_0000 && dx * dx >= 0) by (nonlinear_arith)
            requires
                -0x80_0000 <= dx <= 0x80_0000,
        ;
        assert(dy * dy <= 0x40_0000_0000_0000 && dy * dy >= 0) by (nonlinear_arith)
            requires
                -0x80_0000 <= dy <= 0x80_0000,
        ;
    }
    dx * dx + dy * dy
}

fn chord_cross_exec(px: i64, py: i64, x1: i64, y1: i64, x4: i64, y4: i64) -> (r: i64)
    requires
        coord_ok(px),
        coord_ok(py),
        coord_ok(x1),
        coord_ok(y1),
        coord_ok(x4),
        coord_ok(y4),
    ensures
        r == chord_cross(px as int, py as int, x1 as int, y1 as int, x4 as int, y4 as int),
        -0x10_0000_0000_0000 <= r <= 0x10_0000_0000_0000,
{
    let dy = y4 - y1;
    let dx = x4 - x1;
    let a = px - x4;
    let b = py - y4;
    proof {
        assert(a * dy <= 0x8_0000_0000_0000 && a * dy >= -0x8_0000_0000_0000) by (nonlinear_arith)
            requires
                -0x20_0000 <= a <= 0x20_0000,
                -0x20_0000 <= dy <= 0x20_0000,
        ;
        assert(b * dx <= 0x8_0000_0000_0000 && b * dx >= -0x8_0000_0000_0000) by (nonlinear_arith)
            requires
                -0x20_0000 <= b <= 0x20_0000,
                -0x20_0000 <= dx <= 0x20_0000,
        ;
    }
    a * dy - b * dx
}

fn chord_dot_exec(px: i64, py: i64, x1: i64, y1: i64, dx: i64, dy: i64) -> (r: i64)
    requires
        coord_ok(px),
        coord_ok(py),
        coord_ok(x1),
        coord_ok(y1),
        -2 * MAX_COORD <= dx <= 2 * MAX_COORD,
        -2 * MAX_COORD <= dy <= 2 * MAX_COORD,
    ensures
        r == chord_dot(px as int, py as int, x1 as int, y1 as int, dx as int, dy as int),
        -0x10_0000_0000_0000 <= r <= 0x10_0000_0000_0000,
{
    let a = px - x1;
    let b = py - y1;
    proof {
        assert(a * dx <= 0x8_0000_0000_0000 && a * dx >= -0x8_0000_0000_0000) by (nonlinear_arith)
            requires
                -0x20_0000 <= a <= 0x20_0000,
                -0x20_0000 <= dx <= 0x20_0000,
        ;
        assert(b * dy <= 0x8_0000_0000_0000 && b * dy >= -0x8_0000_0000_0000) by (nonlinear_arith)
            requires
                -0x20_0000 <= b <= 0x20_0000,
                -0x20_0000 <= dy <= 0x20_0000,
        ;
    }
    a * dx + b * dy
}

fn mid_coord(a: i64, b: i64) -> (r: i64)
    requires
        coord_ok(a),
        coord_ok(b),
    ensures
        r == mid_val(a, b),
        coord_ok(r),
{
    half(a + b)
}

fn tau_exec(x: i64, y: i64) -> (r: i64)
    requires
        -2 * MAX_COORD <= x <= 2 * MAX_COORD,
        -2 * MAX_COORD <= y <= 2 * MAX_COORD,
    ensures
        r == tau(x as int, y as int),
        0 <= r <= FULL_TURN,
{
    if x == 0 && y == 0 {
        return 0;
    }
    let ax = abs_i64(x);
    let ay = abs_i64(y);
    proof {
        assert(ay * QUARTER_TURN >= 0 && ay * QUARTER_TURN <= 0x2_0000_0000_0000)
            by (nonlinear_arith)
            requires
                0 <= ay <= 0x20_0000,
                QUARTER_TURN == 0x1_0000,
        ;
        assert((ay * QUARTER_TURN) / (ax + ay) <= QUARTER_TURN && (ay * QUARTER_TURN) / (ax + ay)
            >= 0) by (nonlinear_arith)
            requires
                0 <= ay,
                0 <= ax,
                ax + ay >= 1,
                ay <= ax + ay,
                QUARTER_TURN == 0x1_0000,
        ;
    }
    let t = (ay * QUARTER_TURN) / (ax + ay);
    if x >= 0 && y >= 0 {
        t
    } else if x < 0 && y >= 0 {
        2 * QUARTER_TURN - t
    } else if x < 0 {
        2 * QUARTER_TURN + t
    } else {
        4 * QUARTER_TURN - t
    }
}

fn turn_exec(ux: i64, uy: i64, vx: i64, vy: i64) -> (r: i64)
    requires
        -2 * MAX_COORD <= ux <= 2 * MAX_COORD,
        -2 * MAX_COORD <= uy <= 2 * MAX_COORD,
        -2 * MAX_COORD <= vx <= 2 * MAX_COORD,
        -2 * MAX_COORD <= vy <= 2 * MAX_COORD,
    ensures
        r == turn_between(ux as int, uy as int, vx as int, vy as int),
        0 <= r <= HALF_TURN,
{
    let tu = tau_exec(ux, uy);
    let tv = tau_exec(vx, vy);
    let d = abs_i64(tv - tu);
    if d >= 2 * QUARTER_TURN {
        4 * QUARTER_TURN - d
    } else {
        d
    }
}

proof fn lemma_div_le(n: int, k: int, m: int)
    requires
        k > 0,
        0 <= n,
        n <= k * m,
    ensures
        0 <= n / k <= m,
{
    assert(0 <= n / k <= m) by (nonlinear_arith)
        requires
            k > 0,
            0 <= n,
            n <= k * m,
    ;
}

proof fn lemma_trunc_div_bound(n: int, k: int, m: int)
    requires
        k > 0,
        m >= 0,
        -(k * m) <= n <= k * m,
    ensures
        -m <= trunc_div(n, k) <= m,
{
    if n >= 0 {
        lemma_div_le(n, k, m);
    } else {
        lemma_div_le(-n, k, m);
    }
}

/// Tunable parameters of one flattening call.
#[derive(Clone, Copy, Debug, PartialEq, Eq, Structural)]
pub struct SubdivisionParams {
    /// Overall flatness target; raising it makes the output finer.
    pub approximation_scale: i64,
    /// Squared distance tolerance, in squared ticks, derived from the scale.
    pub distance_tolerance_square: i64,
    /// Angle tolerance, in turn units; inactive below ANGLE_TOLERANCE_EPSILON.
    pub angle_tolerance: i64,
    /// Cusp angle limit, in turn units; 0 disables the cusp test.
    pub cusp_limit: i64,
    /// Hard cap on subdivision depth.
    pub recursion_limit: u32,
}

/// The defaults of a plain flattening call: scale 1, angle and cusp tests
/// disabled, depth capped at RECURSION_LIMIT.
pub open spec fn default_params() -> SubdivisionParams {
    SubdivisionParams {
        approximation_scale: 1,
        distance_tolerance_square: ((UNIT / 2) * (UNIT / 2)) as i64,
        angle_tolerance: 0,
        cusp_limit: 0,
        recursion_limit: RECURSION_LIMIT,
    }
}

impl SubdivisionParams {
    pub open spec fn wf(self) -> bool {
        &&& 1 <= self.approximation_scale
        &&& 0 <= self.distance_tolerance_square <= UNIT * UNIT
        &&& 0 <= self.angle_tolerance <= FULL_TURN
        &&& 0 <= self.cusp_limit <= FULL_TURN
        &&& self.recursion_limit <= 0xFFFF
    }

    /// Derives the squared distance tolerance (half a unit over the scale,
    /// squared) and records the other limits unchanged.
    pub fn new(
        approximation_scale: i64,
        angle_tolerance: i64,
        cusp_limit: i64,
        recursion_limit: u32,
    ) -> (params: SubdivisionParams)
        requires
            1 <= approximation_scale,
            0 <= angle_tolerance <= FULL_TURN,
            0 <= cusp_limit <= FULL_TURN,
            recursion_limit <= 0xFFFF,
        ensures
            params.wf(),
            params.approximation_scale == approximation_scale,
            params.distance_tolerance_square == ((UNIT / 2) as int / approximation_scale as int) * (
            (UNIT / 2) as int / approximation_scale as int),
            params.angle_tolerance == angle_tolerance,
            params.cusp_limit == cusp_limit,
            params.recursion_limit == recursion_limit,
    {
        let t = (UNIT / 2) / approximation_scale;
        proof {
            assert(0 <= t <= UNIT / 2) by (nonlinear_arith)
                requires
                    t == (UNIT / 2) as int / approximation_scale as int,
                    approximation_scale >= 1,
                    UNIT == 256,
            ;
            assert(t * t <= UNIT * UNIT) by (nonlinear_arith)
                requires
                    0 <= t <= 128,
                    UNIT == 256,
            ;
        }
        SubdivisionParams {
            approximation_scale,
            distance_tolerance_square: t * t,
            angle_tolerance,
            cusp_limit,
            recursion_limit,
        }
    }
}

impl Default for SubdivisionParams {
    fn default() -> (params: SubdivisionParams)
        ensures
            params == default_params(),
            params.wf(),
    {
        SubdivisionParams {
            approximation_scale: 1,
            distance_tolerance_square: (UNIT / 2) * (UNIT / 2),
            angle_tolerance: 0,
            cusp_limit: 0,
            recursion_limit: RECURSION_LIMIT,
        }
    }
}

/// Of two candidate squared deviations, tests the larger against the
/// tolerance: within it, the corresponding control point is emitted and
/// recursion stops; otherwise subdivision continues.
pub open spec fn pick_near(
    d2: int,
    d3: int,
    x2: i64,
    y2: i64,
    x3: i64,
    y3: i64,
    params: SubdivisionParams,
) -> Option<Seq<Point>> {
    if d2 > d3 {
        if d2 < params.distance_tolerance_square {
            Option::Some(seq![Point { x: x2, y: y2 }])
        } else {
            Option::None
        }
    } else {
        if d3 < params.distance_tolerance_square {
            Option::Some(seq![Point { x: x3, y: y3 }])
        } else {
            Option::None
        }
    }
}

/// Squared distance from probe (px, py) to its clamped projection onto the
/// chord from (x1, y1) along (dx, dy), where num is the projection numerator
/// and k the squared chord length.
pub open spec fn proj_sq_dist(
    px: i64,
    py: i64,
    num: int,
    x1: i64,
    y1: i64,
    dx: int,
    dy: int,
    k: int,
) -> int {
    if num <= 0 {
        sq_distance(px as int, py as int, x1 as int, y1 as int)
    } else if num >= k {
        sq_distance(px as int, py as int, x1 + dx, y1 + dy)
    } else {
        sq_distance(
            px as int,
            py as int,
            x1 + trunc_div(num * dx, k),
            y1 + trunc_div(num * dy, k),
        )
    }
}

/// Stop verdict when all four points are collinear, or P1 equals P4: the
/// deviations are recomputed as projected or plain squared distances. A
/// simple collinear run, both controls strictly between the endpoints,
/// stops at once with nothing emitted.
pub open spec fn collinear_decision(
    x1: i64,
    y1: i64,
    x2: i64,
    y2: i64,
    x3: i64,
    y3: i64,
    x4: i64,
    y4: i64,
    params: SubdivisionParams,
) -> Option<Seq<Point>> {
    let dx = x4 - x1;
    let dy = y4 - y1;
    let k = dx * dx + dy * dy;
    if k == 0 {
        pick_near(
            sq_distance(x1 as int, y1 as int, x2 as int, y2 as int),
            sq_distance(x4 as int, y4 as int, x3 as int, y3 as int),
            x2,
            y2,
            x3,
            y3,
            params,
        )
    } else {
        let num2 = chord_dot(x2 as int, y2 as int, x1 as int, y1 as int, dx, dy);
        let num3 = chord_dot(x3 as int, y3 as int, x1 as int, y1 as int, dx, dy);
        if 0 < num2 && num2 < k && 0 < num3 && num3 < k {
            Option::Some(Seq::empty())
        } else {
            pick_near(
                proj_sq_dist(x2, y2, num2, x1, y1, dx, dy, k),
                proj_sq_dist(x3, y3, num3, x1, y1, dx, dy, k),
                x2,
                y2,
                x3,
                y3,
                params,
            )
        }
    }
}

/// Stop verdict when only P3 deviates from the chord (P1, P2, P4 collinear).
pub open spec fn sig_d3_decision(
    x1: i64,
    y1: i64,
    x2: i64,
    y2: i64,
    x3: i64,
    y3: i64,
    x4: i64,
    y4: i64,
    params: SubdivisionParams,
) -> Option<Seq<Point>> {
    let dx = x4 - x1;
    let dy = y4 - y1;
    let d3 = abs_val(
        chord_cross(x3 as int, y3 as int, x1 as int, y1 as int, x4 as int, y4 as int),
    );
    if d3 * d3 <= params.distance_tolerance_square * (dx * dx + dy * dy) {
        if params.angle_tolerance < ANGLE_TOLERANCE_EPSILON {
            Option::Some(seq![Point { x: mid_val(x2, x3), y: mid_val(y2, y3) }])
        } else {
            let da1 = turn_between(x3 - x2, y3 - y2, x4 - x3, y4 - y3);
            if da1 < params.angle_tolerance {
                Option::Some(seq![Point { x: x2, y: y2 }, Point { x: x3, y: y3 }])
            } else if params.cusp_limit != 0 && da1 > params.cusp_limit {
                Option::Some(seq![Point { x: x3, y: y3 }])
            } else {
                Option::None
            }
        }
    } else {
        Option::None
    }
}

/// Stop verdict when only P2 deviates from the chord (P1, P3, P4 collinear).
pub open spec fn sig_d2_decision(
    x1: i64,
    y1: i64,
    x2: i64,
    y2: i64,
    x3: i64,
    y3: i64,
    x4: i64,
    y4: i64,
    params: SubdivisionParams,
) -> Option<Seq<Point>> {
    let dx = x4 - x1;
    let dy = y4 - y1;
    let d2 = abs_val(
        chord_cross(x2 as int, y2 as int, x1 as int, y1 as int, x4 as int, y4 as int),
    );
    if d2 * d2 <= params.distance_tolerance_square * (dx * dx + dy * dy) {
        if params.angle_tolerance < ANGLE_TOLERANCE_EPSILON {
            Option::Some(seq![Point { x: mid_val(x2, x3), y: mid_val(y2, y3) }])
        } else {
            let da1 = turn_between(x2 - x1, y2 - y1, x3 - x2, y3 - y2);
            if da1 < params.angle_tolerance {
                Option::Some(seq![Point { x: x2, y: y2 }, Point { x: x3, y: y3 }])
            } else if params.cusp_limit != 0 && da1 > params.cusp_limit {
                Option::Some(seq![Point { x: x2, y: y2 }])
            } else {
                Option::None
            }
        }
    } else {
        Option::None
    }
}

/// Stop verdict in the regular case, both controls off the chord: the
/// combined deviation is tested, then optionally the two joint angles.
pub open spec fn regular_decision(
    x1: i64,
    y1: i64,
    x2: i64,
    y2: i64,
    x3: i64,
    y3: i64,
    x4: i64,
    y4: i64,
    params: SubdivisionParams,
) -> Option<Seq<Point>> {
    let dx = x4 - x1;
    let dy = y4 - y1;
    let d2 = abs_val(
        chord_cross(x2 as int, y2 as int, x1 as int, y1 as int, x4 as int, y4 as int),
    );
    let d3 = abs_val(
        chord_cross(x3 as int, y3 as int, x1 as int, y1 as int, x4 as int, y4 as int),
    );
    if (d2 + d3) * (d2 + d3) <= params.distance_tolerance_square * (dx * dx + dy * dy) {
        if params.angle_tolerance < ANGLE_TOLERANCE_EPSILON {
            Option::Some(seq![Point { x: mid_val(x2, x3), y: mid_val(y2, y3) }])
        } else {
            let da1 = turn_between(x2 - x1, y2 - y1, x3 - x2, y3 - y2);
            let da2 = turn_between(x3 - x2, y3 - y2, x4 - x3, y4 - y3);
            if da1 + da2 < params.angle_tolerance {
                Option::Some(seq![Point { x: mid_val(x2, x3), y: mid_val(y2, y3) }])
            } else if params.cusp_limit != 0 && da1 > params.cusp_limit {
                Option::Some(seq![Point { x: x2, y: y2 }])
            } else if params.cusp_limit != 0 && da2 > params.cusp_limit {
                Option::Some(seq![Point { x: x3, y: y3 }])
            } else {
                Option::None
            }
        }
    } else {
        Option::None
    }
}

/// What one level of subdivision decides for the curve (P1, P2, P3, P4):
/// Some(points) stops the recursion, emitting exactly those points; None
/// splits the curve at its parametric midpoint and recurses.
pub open spec fn stop_decision(
    x1: i64,
    y1: i64,
    x2: i64,
    y2: i64,
    x3: i64,
    y3: i64,
    x4: i64,
    y4: i64,
    params: SubdivisionParams,
) -> Option<Seq<Point>> {
    let d2 = abs_val(
        chord_cross(x2 as int, y2 as int, x1 as int, y1 as int, x4 as int, y4 as int),
    );
    let d3 = abs_val(
        chord_cross(x3 as int, y3 as int, x1 as int, y1 as int, x4 as int, y4 as int),
    );
    if d2 > 0 && d3 > 0 {
        regular_decision(x1, y1, x2, y2, x3, y3, x4, y4, params)
    } else if d3 > 0 {
        sig_d3_decision(x1, y1, x2, y2, x3, y3, x4, y4, params)
    } else if d2 > 0 {
        sig_d2_decision(x1, y1, x2, y2, x3, y3, x4, y4, params)
    } else {
        collinear_decision(x1, y1, x2, y2, x3, y3, x4, y4, params)
    }
}

spec fn decision_matches(r: Option<Vec<Point>>, d: Option<Seq<Point>>) -> bool {
    match r {
        Option::Some(v) => d == Option::Some(v@),
        Option::None => d == Option::<Seq<Point>>::None,
    }
}

fn chord_len_sq(dx: i64, dy: i64) -> (k: i64)
    requires
        -2 * MAX_COORD <= dx <= 2 * MAX_COORD,
        -2 * MAX_COORD <= dy <= 2 * MAX_COORD,
    ensures
        k == (dx as int) * (dx as int) + (dy as int) * (dy as int),
        0 <= k <= 0x20_0000_0000_0000,
{
    proof {
        assert(dx * dx >= 0 && dx * dx <= 0x10_0000_0000_0000) by (nonlinear_arith)
            requires
                -0x20_0000 <= dx <= 0x20_0000,
        ;
        assert(dy * dy >= 0 && dy * dy <= 0x10_0000_0000_0000) by (nonlinear_arith)
            requires
                -0x20_0000 <= dy <= 0x20_0000,
        ;
    }
    dx * dx + dy * dy
}

fn flat_test(d: i64, k: i64, tol: i64) -> (r: bool)
    requires
        0 <= d <= 0x40_0000_0000_0000,
        0 <= k <= 0x20_0000_0000_0000,
        0 <= tol <= 0x1_0000_0000,
    ensures
        r == ((d as int) * (d as int) <= (tol as int) * (k as int)),
{
    proof {
        assert((d as int) * (d as int) >= 0 && (d as int) * (d as int) <= 0x1000_0000_0000_0000_0000_0000_0000)
            by (nonlinear_arith)
            requires
                0 <= d <= 0x40_0000_0000_0000,
        ;
        assert((tol as int) * (k as int) >= 0 && (tol as int) * (k as int) <= 0x1000_0000_0000_0000_0000_0000_0000)
            by (nonlinear_arith)
            requires
                0 <= tol <= 0x1_0000_0000,
                0 <= k <= 0x20_0000_0000_0000,
        ;
    }
    (d as i128) * (d as i128) <= (tol as i128) * (k as i128)
}

fn pick_near_exec(
    d2: i64,
    d3: i64,
    x2: i64,
    y2: i64,
    x3: i64,
    y3: i64,
    params: &SubdivisionParams,
) -> (r: Option<Vec<Point>>)
    ensures
        decision_matches(r, pick_near(d2 as int, d3 as int, x2, y2, x3, y3, *params)),
{
    if d2 > d3 {
        if d2 < params.distance_tolerance_square {
            let mut v: Vec<Point> = Vec::new();
            v.push(Point::new(x2, y2));
            proof {
                assert(v@ =~= seq![Point { x: x2, y: y2 }]);
            }
            Option::Some(v)
        } else {
            Option::None
        }
    } else {
        if d3 < params.distance_tolerance_square {
            let mut v: Vec<Point> = Vec::new();
            v.push(Point::new(x3, y3));
            proof {
                assert(v@ =~= seq![Point { x: x3, y: y3 }]);
            }
            Option::Some(v)
        } else {
            Option::None
        }
    }
}

fn proj_sq_dist_exec(
    px: i64,
    py: i64,
    num: i64,
    x1: i64,
    y1: i64,
    dx: i64,
    dy: i64,
    k: i64,
) -> (r: i64)
    requires
        coord_ok(px),
        coord_ok(py),
        coord_ok(x1),
        coord_ok(y1),
        -2 * MAX_COORD <= dx <= 2 * MAX_COORD,
        -2 * MAX_COORD <= dy <= 2 * MAX_COORD,
        k == (dx as int) * (dx as int) + (dy as int) * (dy as int),
        k > 0,
        -0x10_0000_0000_0000 <= num <= 0x10_0000_0000_0000,
    ensures
        r == proj_sq_dist(px, py, num as int, x1, y1, dx as int, dy as int, k as int),
        0 <= r,
{
    if num <= 0 {
        calc_sq_distance(px, py, x1, y1)
    } else if num >= k {
        calc_sq_distance(px, py, x1 + dx, y1 + dy)
    } else {
        proof {
            assert(-((k as int) * abs_val(dx as int)) <= (num as int) * (dx as int) <= (k as int)
                * abs_val(dx as int)) by (nonlinear_arith)
                requires
                    0 < num < k,
            ;
            lemma_trunc_div_bound((num as int) * (dx as int), k as int, abs_val(dx as int));
            assert(-((k as int) * abs_val(dy as int)) <= (num as int) * (dy as int) <= (k as int)
                * abs_val(dy as int)) by (nonlinear_arith)
                requires
                    0 < num < k,
            ;
            lemma_trunc_div_bound((num as int) * (dy as int), k as int, abs_val(dy as int));
            assert(-0x4000_0000_0000_0000_0000_0000_0000 <= (num as int) * (dx as int)
                <= 0x4000_0000_0000_0000_0000_0000_0000) by (nonlinear_arith)
                requires
                    -0x10_0000_0000_0000 <= num <= 0x10_0000_0000_0000,
                    -0x20_0000 <= dx <= 0x20_0000,
            ;
            assert(-0x4000_0000_0000_0000_0000_0000_0000 <= (num as int) * (dy as int)
                <= 0x4000_0000_0000_0000_0000_0000_0000) by (nonlinear_arith)
                requires
                    -0x10_0000_0000_0000 <= num <= 0x10_0000_0000_0000,
                    -0x20_0000 <= dy <= 0x20_0000,
            ;
        }
        let qx = x1 + (div_trunc_128((num as i128) * (dx as i128), k as i128) as i64);
        let qy = y1 + (div_trunc_128((num as i128) * (dy as i128), k as i128) as i64);
        calc_sq_distance(px, py, qx, qy)
    }
}

fn collinear_case_exec(
    x1: i64,
    y1: i64,
    x2: i64,
    y2: i64,
    x3: i64,
    y3: i64,
    x4: i64,
    y4: i64,
    params: &SubdivisionParams,
) -> (r: Option<Vec<Point>>)
    requires
        coord_ok(x1) && coord_ok(y1) && coord_ok(x2) && coord_ok(y2),
        coord_ok(x3) && coord_ok(y3) && coord_ok(x4) && coord_ok(y4),
        params.wf(),
    ensures
        decision_matches(r, collinear_decision(x1, y1, x2, y2, x3, y3, x4, y4, *params)),
{
    let dx = x4 - x1;
    let dy = y4 - y1;
    let k = chord_len_sq(dx, dy);
    if k == 0 {
        let d2 = calc_sq_distance(x1, y1, x2, y2);
        let d3 = calc_sq_distance(x4, y4, x3, y3);
        pick_near_exec(d2, d3, x2, y2, x3, y3, params)
    } else {
        let num2 = chord_dot_exec(x2, y2, x1, y1, dx, dy);
        let num3 = chord_dot_exec(x3, y3, x1, y1, dx, dy);
        if 0 < num2 && num2 < k && 0 < num3 && num3 < k {
            let v: Vec<Point> = Vec::new();
            proof {
                assert(v@ =~= Seq::<Point>::empty());
            }
            Option::Some(v)
        } else {
            let d2 = proj_sq_dist_exec(x2, y2, num2, x1, y1, dx, dy, k);
            let d3 = proj_sq_dist_exec(x3, y3, num3, x1, y1, dx, dy, k);
            pick_near_exec(d2, d3, x2, y2, x3, y3, params)
        }
    }
}

fn sig_d3_case_exec(
    x1: i64,
    y1: i64,
    x2: i64,
    y2: i64,
    x3: i64,
    y3: i64,
    x4: i64,
    y4: i64,
    params: &SubdivisionParams,
) -> (r: Option<Vec<Point>>)
    requires
        coord_ok(x1) && coord_ok(y1) && coord_ok(x2) && coord_ok(y2),
        coord_ok(x3) && coord_ok(y3) && coord_ok(x4) && coord_ok(y4),
        params.wf(),
    ensures
        decision_matches(r, sig_d3_decision(x1, y1, x2, y2, x3, y3, x4, y4, *params)),
{
    let dx = x4 - x1;
    let dy = y4 - y1;
    let k = chord_len_sq(dx, dy);
    let d3 = abs_i64(chord_cross_exec(x3, y3, x1, y1, x4, y4));
    if flat_test(d3, k, params.distance_tolerance_square) {
        if params.angle_tolerance < ANGLE_TOLERANCE_EPSILON {
            let mut v: Vec<Point> = Vec::new();
            v.push(Point::new(mid_coord(x2, x3), mid_coord(y2, y3)));
            proof {
                assert(v@ =~= seq![Point { x: mid_val(x2, x3), y: mid_val(y2, y3) }]);
            }
            Option::Some(v)
        } else {
            let da1 = turn_exec(x3 - x2, y3 - y2, x4 - x3, y4 - y3);
            if da1 < params.angle_tolerance {
                let mut v: Vec<Point> = Vec::new();
                v.push(Point::new(x2, y2));
                v.push(Point::new(x3, y3));
                proof {
                    assert(v@ =~= seq![Point { x: x2, y: y2 }, Point { x: x3, y: y3 }]);
                }
                Option::Some(v)
            } else if params.cusp_limit != 0 && da1 > params.cusp_limit {
                let mut v: Vec<Point> = Vec::new();
                v.push(Point::new(x3, y3));
                proof {
                    assert(v@ =~= seq![Point { x: x3, y: y3 }]);
                }
                Option::Some(v)
            } else {
                Option::None
            }
        }
    } else {
        Option::None
    }
}

fn sig_d2_case_exec(
    x1: i64,
    y1: i64,
    x2: i64,
    y2: i64,
    x3: i64,
    y3: i64,
    x4: i64,
    y4: i64,
    params: &SubdivisionParams,
) -> (r: Option<Vec<Point>>)
    requires
        coord_ok(x1) && coord_ok(y1) && coord_ok(x2) && coord_ok(y2),
        coord_ok(x3) && coord_ok(y3) && coord_ok(x4) && coord_ok(y4),
        params.wf(),
    ensures
        decision_matches(r, sig_d2_decision(x1, y1, x2, y2, x3, y3, x4, y4, *params)),
{
    let dx = x4 - x1;
    let dy = y4 - y1;
    let k = chord_len_sq(dx, dy);
    let d2 = abs_i64(chord_cross_exec(x2, y2, x1, y1, x4, y4));
    if flat_test(d2, k, params.distance_tolerance_square) {
        if params.angle_tolerance < ANGLE_TOLERANCE_EPSILON {
            let mut v: Vec<Point> = Vec::new();
            v.push(Point::new(mid_coord(x2, x3), mid_coord(y2, y3)));
            proof {
                assert(v@ =~= seq![Point { x: mid_val(x2, x3), y: mid_val(y2, y3) }]);
            }
            Option::Some(v)
        } else {
            let da1 = turn_exec(x2 - x1, y2 - y1, x3 - x2, y3 - y2);
            if da1 < params.angle_tolerance {
                let mut v: Vec<Point> = Vec::new();
                v.push(Point::new(x2, y2));
                v.push(Point::new(x3, y3));
                proof {
                    assert(v@ =~= seq![Point { x: x2, y: y2 }, Point { x: x3, y: y3 }]);
                }
                Option::Some(v)
            } else if params.cusp_limit != 0 && da1 > params.cusp_limit {
                let mut v: Vec<Point> = Vec::new();
                v.push(Point::new(x2, y2));
                proof {
                    assert(v@ =~= seq![Point { x: x2, y: y2 }]);
                }
                Option::Some(v)
            } else {
                Option::None
            }
        }
    } else {
        Option::None
    }
}

fn regular_case_exec(
    x1: i64,
    y1: i64,
    x2: i64,
    y2: i64,
    x3: i64,
    y3: i64,
    x4: i64,
    y4: i64,
    params: &SubdivisionParams,
) -> (r: Option<Vec<Point>>)
    requires
        coord_ok(x1) && coord_ok(y1) && coord_ok(x2) && coord_ok(y2),
        coord_ok(x3) && coord_ok(y3) && coord_ok(x4) && coord_ok(y4),
        params.wf(),
    ensures
        decision_matches(r, regular_decision(x1, y1, x2, y2, x3, y3, x4, y4, *params)),
{
    let dx = x4 - x1;
    let dy = y4 - y1;
    let k = chord_len_sq(dx, dy);
    let d2 = abs_i64(chord_cross_exec(x2, y2, x1, y1, x4, y4));
    let d3 = abs_i64(chord_cross_exec(x3, y3, x1, y1, x4, y4));
    if flat_test(d2 + d3, k, params.distance_tolerance_square) {
        if params.angle_tolerance < ANGLE_TOLERANCE_EPSILON {
            let mut v: Vec<Point> = Vec::new();
            v.push(Point::new(mid_coord(x2, x3), mid_coord(y2, y3)));
            proof {
                assert(v@ =~= seq![Point { x: mid_val(x2, x3), y: mid_val(y2, y3) }]);
            }
            Option::Some(v)
        } else {
            let da1 = turn_exec(x2 - x1, y2 - y1, x3 - x2, y3 - y2);
            let da2 = turn_exec(x3 - x2, y3 - y2, x4 - x3, y4 - y3);
            if da1 + da2 < params.angle_tolerance {
                let mut v: Vec<Point> = Vec::new();
                v.push(Point::new(mid_coord(x2, x3), mid_coord(y2, y3)));
                proof {
                    assert(v@ =~= seq![Point { x: mid_val(x2, x3), y: mid_val(y2, y3) }]);
                }
                Option::Some(v)
            } else if params.cusp_limit != 0 && da1 > params.cusp_limit {
                let mut v: Vec<Point> = Vec::new();
                v.push(Point::new(x2, y2));
                proof {
                    assert(v@ =~= seq![Point { x: x2, y: y2 }]);
                }
                Option::Some(v)
            } else if params.cusp_limit != 0 && da2 > params.cusp_limit {
                let mut v: Vec<Point> = Vec::new();
                v.push(Point::new(x3, y3));
                proof {
                    assert(v@ =~= seq![Point { x: x3, y: y3 }]);
                }
                Option::Some(v)
            } else {
                Option::None
            }
        }
    } else {
        Option::None
    }
}

fn stop_decision_exec(
    x1: i64,
    y1: i64,
    x2: i64,
    y2: i64,
    x3: i64,
    y3: i64,
    x4: i64,
    y4: i64,
    params: &SubdivisionParams,
) -> (r: Option<Vec<Point>>)
    requires
        coord_ok(x1) && coord_ok(y1) && coord_ok(x2) && coord_ok(y2),
        coord_ok(x3) && coord_ok(y3) && coord_ok(x4) && coord_ok(y4),
        params.wf(),
    ensures
        decision_matches(r, stop_decision(x1, y1, x2, y2, x3, y3, x4, y4, *params)),
{
    let d2 = abs_i64(chord_cross_exec(x2, y2, x1, y1, x4, y4));
    let d3 = abs_i64(chord_cross_exec(x3, y3, x1, y1, x4, y4));
    if d2 > 0 && d3 > 0 {
        regular_case_exec(x1, y1, x2, y2, x3, y3, x4, y4, params)
    } else if d3 > 0 {
        sig_d3_case_exec(x1, y1, x2, y2, x3, y3, x4, y4, params)
    } else if d2 > 0 {
        sig_d2_case_exec(x1, y1, x2, y2, x3, y3, x4, y4, params)
    } else {
        collinear_case_exec(x1, y1, x2, y2, x3, y3, x4, y4, params)
    }
}

/// The interior points the adaptive subdivision emits for the cubic
/// (P1, P2, P3, P4) from depth `level`: what one level decides, or the two
/// half-curves' points at the next depth, left half first — the ordering
/// that makes the output follow the curve from start to end. Past the
/// recursion limit nothing is emitted: the current approximation is
/// accepted silently.
pub open spec fn interior_points(
    x1: i64,
    y1: i64,
    x2: i64,
    y2: i64,
    x3: i64,
    y3: i64,
    x4: i64,
    y4: i64,
    params: SubdivisionParams,
    level: nat,
) -> Seq<Point>
    decreases params.recursion_limit + 1 - level,
{
    if level > params.recursion_limit {
        Seq::empty()
    } else {
        match stop_decision(x1, y1, x2, y2, x3, y3, x4, y4, params) {
            Option::Some(pts) => pts,
            Option::None => {
                let x12 = mid_val(x1, x2);
                let y12 = mid_val(y1, y2);
                let x23 = mid_val(x2, x3);
                let y23 = mid_val(y2, y3);
                let x34 = mid_val(x3, x4);
                let y34 = mid_val(y3, y4);
                let x123 = mid_val(x12, x23);
                let y123 = mid_val(y12, y23);
                let x234 = mid_val(x23, x34);
                let y234 = mid_val(y23, y34);
                let x1234 = mid_val(x123, x234);
                let y1234 = mid_val(y123, y234);
                interior_points(x1, y1, x12, y12, x123, y123, x1234, y1234, params, level + 1)
                    + interior_points(x1234, y1234, x234, y234, x34, y34, x4, y4, params, level + 1)
            },
        }
    }
}

/// Whether the subdivision from depth `level` runs into the recursion limit
/// anywhere and accepts its approximation silently — a quality diagnostic,
/// not an error.
pub open spec fn limit_hit(
    x1: i64,
    y1: i64,
    x2: i64,
    y2: i64,
    x3: i64,
    y3: i64,
    x4: i64,
    y4: i64,
    params: SubdivisionParams,
    level: nat,
) -> bool
    decreases params.recursion_limit + 1 - level,
{
    if level > params.recursion_limit {
        true
    } else {
        match stop_decision(x1, y1, x2, y2, x3, y3, x4, y4, params) {
            Option::Some(_) => false,
            Option::None => {
                let x12 = mid_val(x1, x2);
                let y12 = mid_val(y1, y2);
                let x23 = mid_val(x2, x3);
                let y23 = mid_val(y2, y3);
                let x34 = mid_val(x3, x4);
                let y34 = mid_val(y3, y4);
                let x123 = mid_val(x12, x23);
                let y123 = mid_val(y12, y23);
                let x234 = mid_val(x23, x34);
                let y234 = mid_val(y23, y34);
                let x1234 = mid_val(x123, x234);
                let y1234 = mid_val(y123, y234);
                limit_hit(x1, y1, x12, y12, x123, y123, x1234, y1234, params, level + 1)
                    || limit_hit(x1234, y1234, x234, y234, x34, y34, x4, y4, params, level + 1)
            },
        }
    }
}

pub open spec fn is_cubic(s: Segment) -> bool {
    match s {
        Segment::Cubic(_, _, _, _) => true,
        _ => false,
    }
}

/// One flattening call: the four control points of one cubic, the tolerance
/// parameters, and the output point list it accumulates. Short-lived: made
/// for one curve and consumed by `flatten`.
pub struct Subdivision {
    pub x1: i64,
    pub y1: i64,
    pub x2: i64,
    pub y2: i64,
    pub x3: i64,
    pub y3: i64,
    pub x4: i64,
    pub y4: i64,
    pub params: SubdivisionParams,
    pub points: Vec<Point>,
    /// Set when some subcurve ran into the recursion limit, so the output may
    /// be coarser than the tolerances asked: observable for quality auditing,
    /// never an error.
    pub limit_reached: bool,
}

impl Subdivision {
    pub open spec fn wf(self) -> bool {
        &&& self.params.wf()
        &&& coord_ok(self.x1) && coord_ok(self.y1)
        &&& coord_ok(self.x2) && coord_ok(self.y2)
        &&& coord_ok(self.x3) && coord_ok(self.y3)
        &&& coord_ok(self.x4) && coord_ok(self.y4)
    }

    /// The cubic segment this subdivision was made from.
    pub open spec fn cubic(self) -> Segment {
        Segment::Cubic(
            Point { x: self.x1, y: self.y1 },
            Point { x: self.x2, y: self.y2 },
            Point { x: self.x3, y: self.y3 },
            Point { x: self.x4, y: self.y4 },
        )
    }

    /// Construction is cubic-only: handing any other segment kind is a
    /// caller bug, excluded by precondition rather than recovered from.
    pub fn with_params(cubic: &Segment, params: SubdivisionParams) -> (sd: Subdivision)
        requires
            is_cubic(*cubic),
            segment_ok(*cubic),
            params.wf(),
        ensures
            sd.wf(),
            sd.cubic() == *cubic,
            sd.params == params,
            sd.points@ == Seq::<Point>::empty(),
            !sd.limit_reached,
    {
        match *cubic {
            Segment::Cubic(p1, p2, p3, p4) => Subdivision {
                x1: p1.x,
                y1: p1.y,
                x2: p2.x,
                y2: p2.y,
                x3: p3.x,
                y3: p3.y,
                x4: p4.x,
                y4: p4.y,
                params,
                points: Vec::new(),
                limit_reached: false,
            },
            _ => vstd::pervasive::unreached(),
        }
    }

    pub fn new(cubic: &Segment) -> (sd: Subdivision)
        requires
            is_cubic(*cubic),
            segment_ok(*cubic),
        ensures
            sd.wf(),
            sd.cubic() == *cubic,
            sd.params == default_params(),
            sd.points@ == Seq::<Point>::empty(),
            !sd.limit_reached,
    {
        Subdivision::with_params(cubic, SubdivisionParams::default())
    }

    fn recursive_bezier(
        &mut self,
        x1: i64,
        y1: i64,
        x2: i64,
        y2: i64,
        x3: i64,
        y3: i64,
        x4: i64,
        y4: i64,
        level: u32,
    )
        requires
            old(self).params.wf(),
            coord_ok(x1) && coord_ok(y1) && coord_ok(x2) && coord_ok(y2),
            coord_ok(x3) && coord_ok(y3) && coord_ok(x4) && coord_ok(y4),
        ensures
            final(self).points@ == old(self).points@ + interior_points(
                x1,
                y1,
                x2,
                y2,
                x3,
                y3,
                x4,
                y4,
                old(self).params,
                level as nat,
            ),
            final(self).params == old(self).params,
            final(self).limit_reached == (old(self).limit_reached || limit_hit(
                x1,
                y1,
                x2,
                y2,
                x3,
                y3,
                x4,
                y4,
                old(self).params,
                level as nat,
            )),
            final(self).x1 == old(self).x1 && final(self).y1 == old(self).y1,
            final(self).x2 == old(self).x2 && final(self).y2 == old(self).y2,
            final(self).x3 == old(self).x3 && final(self).y3 == old(self).y3,
            final(self).x4 == old(self).x4 && final(self).y4 == old(self).y4,
        decreases old(self).params.recursion_limit + 1 - level,
    {
        if level > self.params.recursion_limit {
            self.limit_reached = true;
            proof {
                assert(self.points@ =~= old(self).points@ + interior_points(
                    x1, y1, x2, y2, x3, y3, x4, y4, old(self).params, level as nat));
            }
            return;
        }
        let dec = stop_decision_exec(x1, y1, x2, y2, x3, y3, x4, y4, &self.params);
        match dec {
            Option::Some(mut pts) => {
                self.points.append(&mut pts);
            },
            Option::None => {
                let x12 = mid_coord(x1, x2);
                let y12 = mid_coord(y1, y2);
                let x23 = mid_coord(x2, x3);
                let y23 = mid_coord(y2, y3);
                let x34 = mid_coord(x3, x4);
                let y34 = mid_coord(y3, y4);
                let x123 = mid_coord(x12, x23);
                let y123 = mid_coord(y12, y23);
                let x234 = mid_coord(x23, x34);
                let y234 = mid_coord(y23, y34);
                let x1234 = mid_coord(x123, x234);
                let y1234 = mid_coord(y123, y234);
                self.recursive_bezier(x1, y1, x12, y12, x123, y123, x1234, y1234, level + 1);
                self.recursive_bezier(x1234, y1234, x234, y234, x34, y34, x4, y4, level + 1);
                proof {
                    assert(self.points@ =~= old(self).points@ + interior_points(
                        x1, y1, x2, y2, x3, y3, x4, y4, old(self).params, level as nat));
                }
            },
        }
    }

    /// Runs the adaptive subdivision on the stored cubic, appending the
    /// emitted interior points to `points` and recording in `limit_reached`
    /// whether the recursion limit was ever hit.
    pub fn run(&mut self)
        requires
            old(self).wf(),
        ensures
            final(self).points@ == old(self).points@ + interior_points(
                old(self).x1,
                old(self).y1,
                old(self).x2,
                old(self).y2,
                old(self).x3,
                old(self).y3,
                old(self).x4,
                old(self).y4,
                old(self).params,
                0,
            ),
            final(self).limit_reached == (old(self).limit_reached || limit_hit(
                old(self).x1,
                old(self).y1,
                old(self).x2,
                old(self).y2,
                old(self).x3,
                old(self).y3,
                old(self).x4,
                old(self).y4,
                old(self).params,
                0,
            )),
            final(self).params == old(self).params,
            final(self).x1 == old(self).x1 && final(self).y1 == old(self).y1,
            final(self).x2 == old(self).x2 && final(self).y2 == old(self).y2,
            final(self).x3 == old(self).x3 && final(self).y3 == old(self).y3,
            final(self).x4 == old(self).x4 && final(self).y4 == old(self).y4,
    {
        let x1 = self.x1;
        let y1 = self.y1;
        let x2 = self.x2;
        let y2 = self.y2;
        let x3 = self.x3;
        let y3 = self.y3;
        let x4 = self.x4;
        let y4 = self.y4;
        self.recursive_bezier(x1, y1, x2, y2, x3, y3, x4, y4, 0);
    }

    /// Runs the adaptive subdivision and hands out the accumulated points.
    /// The sequence holds interior points only: the caller prepends the
    /// curve's exact start point and appends its exact end point, as
    /// `subdivide_with` does.
    pub fn flatten(self) -> (points: Vec<Point>)
        requires
            self.wf(),
        ensures
            points@ == self.points@ + interior_points(
                self.x1,
                self.y1,
                self.x2,
                self.y2,
                self.x3,
                self.y3,
                self.x4,
                self.y4,
                self.params,
                0,
            ),
    {
        let mut sd = self;
        sd.run();
        sd.points
    }
}

/// Degree elevation of a quadratic: the first cubic control point, one third
/// of the way from the start toward the quadratic control, rounded toward
/// zero.
pub open spec fn elevated_c1(a: Point, c: Point) -> Point {
    Point { x: trunc_div(a.x + 2 * c.x, 3) as i64, y: trunc_div(a.y + 2 * c.y, 3) as i64 }
}

/// Degree elevation of a quadratic: the second cubic control point.
pub open spec fn elevated_c2(c: Point, b: Point) -> Point {
    Point { x: trunc_div(2 * c.x + b.x, 3) as i64, y: trunc_div(2 * c.y + b.y, 3) as i64 }
}

/// The full polyline one segment flattens to: its exact start point, the
/// interior points of the adaptive subdivision (for curves), and its exact
/// end point. A line needs no interior points; a quadratic is elevated to
/// the equivalent cubic first.
pub open spec fn flatten_segment(s: Segment, params: SubdivisionParams) -> Seq<Point> {
    match s {
        Segment::Line(a, b) => seq![a, b],
        Segment::Quad(a, c, b) => {
            let c1 = elevated_c1(a, c);
            let c2 = elevated_c2(c, b);
            seq![a] + interior_points(a.x, a.y, c1.x, c1.y, c2.x, c2.y, b.x, b.y, params, 0)
                + seq![b]
        },
        Segment::Cubic(a, c1, c2, b) => seq![a] + interior_points(
            a.x,
            a.y,
            c1.x,
            c1.y,
            c2.x,
            c2.y,
            b.x,
            b.y,
            params,
            0,
        ) + seq![b],
    }
}

/// Flattens one segment into an ordered polyline under the given parameters.
pub fn subdivide_with(segment: &Segment, params: SubdivisionParams) -> (points: Vec<Point>)
    requires
        segment_ok(*segment),
        params.wf(),
    ensures
        points@ == flatten_segment(*segment, params),
{
    match *segment {
        Segment::Line(a, b) => {
            let mut points: Vec<Point> = Vec::new();
            points.push(a);
            points.push(b);
            proof {
                assert(points@ =~= seq![a, b]);
            }
            points
        },
        Segment::Quad(a, c, b) => {
            let c1 = Point::new(third(a.x + 2 * c.x), third(a.y + 2 * c.y));
            let c2 = Point::new(third(2 * c.x + b.x), third(2 * c.y + b.y));
            proof {
                assert(c1 == elevated_c1(a, c));
                assert(c2 == elevated_c2(c, b));
            }
            let cubic = Segment::Cubic(a, c1, c2, b);
            let sd = Subdivision::with_params(&cubic, params);
            let mut inner = sd.flatten();
            let mut points: Vec<Point> = Vec::new();
            points.push(a);
            points.append(&mut inner);
            points.push(b);
            proof {
                assert(points@ =~= flatten_segment(*segment, params));
            }
            points
        },
        Segment::Cubic(a, c1, c2, b) => {
            let sd = Subdivision::with_params(segment, params);
            let mut inner = sd.flatten();
            let mut points: Vec<Point> = Vec::new();
            points.push(a);
            points.append(&mut inner);
            points.push(b);
            proof {
                assert(points@ =~= flatten_segment(*segment, params));
            }
            points
        },
    }
}

/// Subdivision depth still available below the recursion limit at `level`.
pub open spec fn depth_left(params: SubdivisionParams, level: nat) -> nat {
    if level > params.recursion_limit {
        0
    } else {
        (params.recursion_limit + 1 - level) as nat
    }
}

/// Most interior points the subdivision can emit with `d` depth left: one
/// level either stops with at most two points or splits in two.
pub open spec fn interior_count_limit(d: nat) -> nat
    decreases d,
{
    if d == 0 {
        0
    } else if d == 1 {
        2
    } else {
        2 * interior_count_limit((d - 1) as nat)
    }
}

proof fn lemma_decision_len(
    x1: i64,
    y1: i64,
    x2: i64,
    y2: i64,
    x3: i64,
    y3: i64,
    x4: i64,
    y4: i64,
    params: SubdivisionParams,
)
    ensures
        match stop_decision(x1, y1, x2, y2, x3, y3, x4, y4, params) {
            Option::Some(pts) => pts.len() <= 2,
            Option::None => true,
        },
{
}

proof fn lemma_count_limit_at_least_two(d: nat)
    requires
        d >= 1,
    ensures
        interior_count_limit(d) >= 2,
    decreases d,
{
    if d > 1 {
        lemma_count_limit_at_least_two((d - 1) as nat);
    }
}

/// Bounded recursion, bounded output: whatever the control points, the
/// subdivision terminates within the recursion limit and emits at most
/// 2^(depth left) interior points; past the limit it emits none.
pub proof fn lemma_interior_count(
    x1: i64,
    y1: i64,
    x2: i64,
    y2: i64,
    x3: i64,
    y3: i64,
    x4: i64,
    y4: i64,
    params: SubdivisionParams,
    level: nat,
)
    ensures
        interior_points(x1, y1, x2, y2, x3, y3, x4, y4, params, level).len()
            <= interior_count_limit(depth_left(params, level)),
        level > params.recursion_limit ==> interior_points(
            x1,
            y1,
            x2,
            y2,
            x3,
            y3,
            x4,
            y4,
            params,
            level,
        ).len() == 0,
    decreases depth_left(params, level),
{
    if level > params.recursion_limit {
    } else {
        lemma_decision_len(x1, y1, x2, y2, x3, y3, x4, y4, params);
        match stop_decision(x1, y1, x2, y2, x3, y3, x4, y4, params) {
            Option::Some(pts) => {
                lemma_count_limit_at_least_two(depth_left(params, level));
            },
            Option::None => {
                let x12 = mid_val(x1, x2);
                let y12 = mid_val(y1, y2);
                let x23 = mid_val(x2, x3);
                let y23 = mid_val(y2, y3);
                let x34 = mid_val(x3, x4);
                let y34 = mid_val(y3, y4);
                let x123 = mid_val(x12, x23);
                let y123 = mid_val(y12, y23);
                let x234 = mid_val(x23, x34);
                let y234 = mid_val(y23, y34);
                let x1234 = mid_val(x123, x234);
                let y1234 = mid_val(y123, y234);
                lemma_interior_count(
                    x1,
                    y1,
                    x12,
                    y12,
                    x123,
                    y123,
                    x1234,
                    y1234,
                    params,
                    level + 1,
                );
                lemma_interior_count(
                    x1234,
                    y1234,
                    x234,
                    y234,
                    x34,
                    y34,
                    x4,
                    y4,
                    params,
                    level + 1,
                );
            },
        }
    }
}

/// A flattened segment is a finite polyline: its exact endpoints and at most
/// 2^(recursion limit + 1) interior points.
pub proof fn lemma_flatten_segment_count(s: Segment, params: SubdivisionParams)
    ensures
        flatten_segment(s, params).len() <= 2 + interior_count_limit(
            (params.recursion_limit + 1) as nat,
        ),
{
    match s {
        Segment::Line(_, _) => {},
        Segment::Quad(a, c, b) => {
            let c1 = elevated_c1(a, c);
            let c2 = elevated_c2(c, b);
            lemma_interior_count(a.x, a.y, c1.x, c1.y, c2.x, c2.y, b.x, b.y, params, 0);
        },
        Segment::Cubic(a, c1, c2, b) => {
            lemma_interior_count(a.x, a.y, c1.x, c1.y, c2.x, c2.y, b.x, b.y, params, 0);
        },
    }
}

/// Determinism: the flattened polyline is a function of the segment and the
/// parameters alone, so flattening the same segment twice with the same
/// tolerances emits the identical point sequence — no hidden state leaks
/// between calls.
pub proof fn lemma_flatten_deterministic(
    s1: Segment,
    s2: Segment,
    q1: SubdivisionParams,
    q2: SubdivisionParams,
)
    requires
        s1 == s2,
        q1 == q2,
    ensures
        flatten_segment(s1, q1) == flatten_segment(s2, q2),
{
}

/// Flattens one segment with the default parameters.
pub fn subdivide(segment: &Segment) -> (points: Vec<Point>)
    requires
        segment_ok(*segment),
    ensures
        points@ == flatten_segment(*segment, default_params()),
{
    subdivide_with(segment, SubdivisionParams::default())
}

} // verus!
