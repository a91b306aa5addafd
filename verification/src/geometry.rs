//! Exact geometry on scene points given in thousandths of a scene unit:
//! distances and whether a straight link clears the planet.
use vstd::prelude::*;

verus! {

/// Largest coordinate magnitude (thousandths of a scene unit) that the
/// exact computations accept.
pub const COORD_LIMIT: i64 = 1_000_000;

/// A point of the scene, in thousandths of a scene unit.
#[derive(Debug, Clone, Copy, PartialEq, Eq, Structural)]
pub struct Point {
    pub x: i64,
    pub y: i64,
    pub z: i64,
}

/// Every coordinate lies within `COORD_LIMIT`.
pub open spec fn in_scene(p: Point) -> bool {
    -COORD_LIMIT <= p.x <= COORD_LIMIT && -COORD_LIMIT <= p.y <= COORD_LIMIT && -COORD_LIMIT <= p.z
        <= COORD_LIMIT
}

/// Whether a point lies within `COORD_LIMIT` on every axis.
pub fn point_in_scene(p: Point) -> (b: bool)
    ensures
        b == in_scene(p),
{
    -COORD_LIMIT <= p.x && p.x <= COORD_LIMIT && -COORD_LIMIT <= p.y && p.y <= COORD_LIMIT
        && -COORD_LIMIT <= p.z && p.z <= COORD_LIMIT
}

/// Dot product of the position vectors.
pub open spec fn dot(a: Point, b: Point) -> int {
    a.x * b.x + a.y * b.y + a.z * b.z
}

/// Dot product of `a` with the vector from `a` to `b`.
pub open spec fn dot_toward(a: Point, b: Point) -> int {
    a.x * (b.x - a.x) + a.y * (b.y - a.y) + a.z * (b.z - a.z)
}

/// Squared distance between two points.
pub open spec fn dist2(a: Point, b: Point) -> int {
    (b.x - a.x) * (b.x - a.x) + (b.y - a.y) * (b.y - a.y) + (b.z - a.z) * (b.z - a.z)
}

/// Whether the segment from `a` to `b` stays farther than 1.001 times
/// `radius` from the centre of the planet (the origin).
///
/// With `d = b - a`, the point of the line nearest to the origin is at
/// parameter `-a.d / |d|` along the ray. When it lies before `a` or beyond
/// `b`, the link is clear. Otherwise the link is clear exactly when the
/// squared distance of that point, `|a|^2 - (a.d)^2 / |d|^2`, exceeds
/// `(1.001 radius)^2`; the inequality is taken multiplied by `10^6 |d|^2`.
/// A segment of zero length is never clear.
pub open spec fn line_of_sight(a: Point, b: Point, radius: int) -> bool {
    let ad = dot_toward(a, b);
    let dd = dist2(a, b);
    if ad > 0 || -ad > dd {
        true
    } else if radius < 0 {
        dd > 0
    } else {
        1_000_000 * (dot(a, a) * dd - ad * ad) > (1001 * radius) * (1001 * radius) * dd
    }
}

proof fn lemma_mul_bound(u: int, v: int, bu: int, bv: int)
    by (nonlinear_arith)
    requires
        -bu <= u <= bu,
        -bv <= v <= bv,
    ensures
        -(bu * bv) <= u * v <= bu * bv,
{
}

proof fn lemma_square_nonneg(u: int)
    by (nonlinear_arith)
    ensures
        0 <= u * u,
{
}

proof fn lemma_bounds(a: Point, b: Point)
    requires
        in_scene(a),
        in_scene(b),
    ensures
        0 <= (b.x - a.x) * (b.x - a.x) <= 4_000_000_000_000,
        0 <= (b.y - a.y) * (b.y - a.y) <= 4_000_000_000_000,
        0 <= (b.z - a.z) * (b.z - a.z) <= 4_000_000_000_000,
        0 <= a.x * a.x <= 1_000_000_000_000,
        0 <= a.y * a.y <= 1_000_000_000_000,
        0 <= a.z * a.z <= 1_000_000_000_000,
        -2_000_000_000_000 <= a.x * (b.x - a.x) <= 2_000_000_000_000,
        -2_000_000_000_000 <= a.y * (b.y - a.y) <= 2_000_000_000_000,
        -2_000_000_000_000 <= a.z * (b.z - a.z) <= 2_000_000_000_000,
        0 <= dist2(a, b) <= 12_000_000_000_000,
        0 <= dot(a, a) <= 3_000_000_000_000,
        -6_000_000_000_000 <= dot_toward(a, b) <= 6_000_000_000_000,
{
    lemma_mul_bound(b.x - a.x, b.x - a.x, 2_000_000, 2_000_000);
    lemma_mul_bound(b.y - a.y, b.y - a.y, 2_000_000, 2_000_000);
    lemma_mul_bound(b.z - a.z, b.z - a.z, 2_000_000, 2_000_000);
    lemma_square_nonneg(b.x - a.x);
    lemma_square_nonneg(b.y - a.y);
    lemma_square_nonneg(b.z - a.z);
    lemma_mul_bound(a.x as int, a.x as int, 1_000_000, 1_000_000);
    lemma_mul_bound(a.y as int, a.y as int, 1_000_000, 1_000_000);
    lemma_mul_bound(a.z as int, a.z as int, 1_000_000, 1_000_000);
    lemma_square_nonneg(a.x as int);
    lemma_square_nonneg(a.y as int);
    lemma_square_nonneg(a.z as int);
    lemma_mul_bound(a.x as int, b.x - a.x, 1_000_000, 2_000_000);
    lemma_mul_bound(a.y as int, b.y - a.y, 1_000_000, 2_000_000);
    lemma_mul_bound(a.z as int, b.z - a.z, 1_000_000, 2_000_000);
}

/// Squared distance between two scene points.
pub fn distance_squared(a: Point, b: Point) -> (d: i128)
    requires
        in_scene(a),
        in_scene(b),
    ensures
        d == dist2(a, b),
        0 <= d <= 12_000_000_000_000,
{
    proof { lemma_bounds(a, b); }
    let dx = b.x as i128 - a.x as i128;
    let dy = b.y as i128 - a.y as i128;
    let dz = b.z as i128 - a.z as i128;
    dx * dx + dy * dy + dz * dz
}

/// Whether the straight link from `a` to `b` clears the planet of radius
/// `earth_radius` (all in thousandths of a scene unit), as `line_of_sight`
/// says.
pub fn has_line_of_sight(pos_a: Point, pos_b: Point, earth_radius: i64) -> (clear: bool)
    requires
        in_scene(pos_a),
        in_scene(pos_b),
        -COORD_LIMIT <= earth_radius <= COORD_LIMIT,
    ensures
        clear == line_of_sight(pos_a, pos_b, earth_radius as int),
{
    proof { lemma_bounds(pos_a, pos_b); }
    let ax = pos_a.x as i128;
    let ay = pos_a.y as i128;
    let az = pos_a.z as i128;
    let dx = pos_b.x as i128 - ax;
    let dy = pos_b.y as i128 - ay;
    let dz = pos_b.z as i128 - az;
    let ad: i128 = ax * dx + ay * dy + az * dz;
    let dd: i128 = dx * dx + dy * dy + dz * dz;
    if ad > 0 || -ad > dd {
        return true;
    }
    if earth_radius < 0 {
        return dd > 0;
    }
    let aa: i128 = ax * ax + ay * ay + az * az;
    let r: i128 = 1001 * earth_radius as i128;
    assert(0 <= aa * dd <= 36_000_000_000_000_000_000_000_000) by (nonlinear_arith)
        requires 0 <= aa <= 3_000_000_000_000, 0 <= dd <= 12_000_000_000_000;
    assert(0 <= ad * ad <= 36_000_000_000_000_000_000_000_000) by (nonlinear_arith)
        requires -6_000_000_000_000 <= ad <= 6_000_000_000_000;
    assert(0 <= r * r <= 1_002_001_000_000_000_000) by (nonlinear_arith)
        requires 0 <= r <= 1_001_000_000;
    let rr: i128 = r * r;
    assert(0 <= rr * dd <= 12_024_012_000_000_000_000_000_000_000_000) by (nonlinear_arith)
        requires 0 <= rr <= 1_002_001_000_000_000_000, 0 <= dd <= 12_000_000_000_000;
    1_000_000 * (aa * dd - ad * ad) > rr * dd
}

proof fn lemma_reverse_terms(ax: int, ay: int, az: int, bx: int, by: int, bz: int)
    by (nonlinear_arith)
    ensures
        bx * (ax - bx) + by * (ay - by) + bz * (az - bz) == -((ax * (bx - ax) + ay * (by - ay) + az * (bz
            - az)) + ((bx - ax) * (bx - ax) + (by - ay) * (by - ay) + (bz - az) * (bz - az))),
        (ax - bx) * (ax - bx) + (ay - by) * (ay - by) + (az - bz) * (az - bz) == (bx - ax) * (bx - ax) + (
        by - ay) * (by - ay) + (bz - az) * (bz - az),
{
}

proof fn lemma_reverse_clearance(aa: int, bb: int, ad: int, ba: int, dd: int)
    by (nonlinear_arith)
    requires
        bb == aa + 2 * ad + dd,
        ba == -(ad + dd),
    ensures
        bb * dd - ba * ba == aa * dd - ad * ad,
{
}

proof fn lemma_norm_shift(ax: int, ay: int, az: int, bx: int, by: int, bz: int)
    by (nonlinear_arith)
    ensures
        bx * bx + by * by + bz * bz == (ax * ax + ay * ay + az * az) + 2 * (ax * (bx - ax) + ay * (by
            - ay) + az * (bz - az)) + ((bx - ax) * (bx - ax) + (by - ay) * (by - ay) + (bz - az) * (bz
            - az)),
{
}

/// Line of sight does not depend on the direction of the link: `a` sees
/// `b` exactly when `b` sees `a`.
pub proof fn line_of_sight_symmetric(a: Point, b: Point, radius: int)
    ensures
        line_of_sight(a, b, radius) == line_of_sight(b, a, radius),
{
    lemma_reverse_terms(a.x as int, a.y as int, a.z as int, b.x as int, b.y as int, b.z as int);
    lemma_norm_shift(a.x as int, a.y as int, a.z as int, b.x as int, b.y as int, b.z as int);
    let ad = dot_toward(a, b);
    let dd = dist2(a, b);
    assert(dot_toward(b, a) == -(ad + dd));
    assert(dist2(b, a) == dd);
    assert(dot(b, b) == dot(a, a) + 2 * ad + dd);
    lemma_reverse_clearance(dot(a, a), dot(b, b), ad, dot_toward(b, a), dd);
    assert(dot(b, b) * dd - dot_toward(b, a) * dot_toward(b, a) == dot(a, a) * dd - ad * ad);
}

proof fn lemma_zero_length(ax: int, ay: int, az: int, dx: int, dy: int, dz: int)
    by (nonlinear_arith)
    ensures
        dx * dx + dy * dy + dz * dz >= 0,
        dx * dx + dy * dy + dz * dz == 0 ==> ax * dx + ay * dy + az * dz == 0,
{
    assert(dx * dx >= 0 && dy * dy >= 0 && dz * dz >= 0);
    if dx * dx + dy * dy + dz * dz == 0 {
        assert(dx == 0 && dy == 0 && dz == 0);
    }
}

proof fn lemma_square_grows(s: int, l: int, dd: int)
    by (nonlinear_arith)
    requires
        0 <= s <= l,
        dd >= 0,
    ensures
        (1001 * s) * (1001 * s) * dd <= (1001 * l) * (1001 * l) * dd,
{
    assert((1001 * s) * (1001 * s) <= (1001 * l) * (1001 * l));
}

/// A smaller planet never blocks a link that a larger one lets through.
pub proof fn line_of_sight_smaller_planet(a: Point, b: Point, r_small: int, r_large: int)
    requires
        r_small <= r_large,
        line_of_sight(a, b, r_large),
    ensures
        line_of_sight(a, b, r_small),
{
    let ad = dot_toward(a, b);
    let dd = dist2(a, b);
    lemma_zero_length(a.x as int, a.y as int, a.z as int, b.x - a.x, b.y - a.y, b.z - a.z);
    assert(dd >= 0 && (dd == 0 ==> ad == 0));
    if !(ad > 0 || -ad > dd) {
        if r_small >= 0 {
            lemma_square_grows(r_small, r_large, dd);
        } else if r_large >= 0 {
            if dd == 0 {
                assert(1_000_000 * (dot(a, a) * dd - ad * ad) == 0) by (nonlinear_arith)
                    requires dd == 0, ad == 0;
                assert((1001 * r_large) * (1001 * r_large) * dd == 0) by (nonlinear_arith)
                    requires dd == 0;
            }
        }
    }
}

/// Distance does not depend on the direction of measurement.
pub proof fn distance_symmetric(a: Point, b: Point)
    ensures
        dist2(a, b) == dist2(b, a),
{
    lemma_reverse_terms(a.x as int, a.y as int, a.z as int, b.x as int, b.y as int, b.z as int);
}

} // verus!
