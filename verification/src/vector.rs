//! Fixed-point 3D positions and the exact geometry the validator needs.
//!
//! A coordinate is an `i64` counting millionths of a unit, so squared
//! distances and squared cross products are exact integers.  The two
//! degeneracy thresholds of the validator (edge length and face area
//! above `1/100000` of a unit) become exact comparisons on those squares.

use vstd::prelude::*;

verus! {

/// Number of fixed-point coordinate steps per unit.
pub const COORD_SCALE: i64 = 1_000_000;

/// Largest coordinate magnitude the kernel accepts (500 units), chosen so
/// that squared distances and squared cross products stay representable.
pub const COORD_LIMIT: i64 = 500_000_000;

/// Degenerate-edge threshold: an edge is degenerate when its squared
/// length, in squared coordinate steps, is below this value.  It equals
/// `(1/100000)^2` of a squared unit.
pub const MIN_SQ_LENGTH: i64 = 100;

/// Degenerate-face threshold: a triangle is degenerate when the squared
/// norm of the cross product of two of its edge vectors is below this
/// value, which is `(2/100000)^2` of a unit to the fourth power; the face
/// area is then below `1/100000` of a squared unit.
pub const MIN_SQ_CROSS: i128 = 400_000_000_000_000;

/// A position: three fixed-point coordinates.
#[derive(Clone, Copy, PartialEq, Eq, Structural, Debug)]
pub struct Vec3 {
    pub x: i64,
    pub y: i64,
    pub z: i64,
}

/// Whether one coordinate is within the accepted range.
pub open spec fn coord_in_range(c: i64) -> bool {
    -COORD_LIMIT <= c <= COORD_LIMIT
}

/// Whether all three coordinates of a position are within range.
pub open spec fn position_in_range(p: Vec3) -> bool {
    coord_in_range(p.x) && coord_in_range(p.y) && coord_in_range(p.z)
}

/// Builds a position from its three coordinates.
pub fn vec3(x: i64, y: i64, z: i64) -> (p: Vec3)
    ensures
        p == (Vec3 { x, y, z }),
{
    Vec3 { x, y, z }
}

/// The squared distance between two positions, as a mathematical integer.
pub open spec fn spec_sq_distance(a: Vec3, b: Vec3) -> int {
    (a.x - b.x) * (a.x - b.x) + (a.y - b.y) * (a.y - b.y) + (a.z - b.z) * (a.z - b.z)
}

/// One component of the cross product of the edge vectors `b - a` and
/// `c - a` of a triangle `(a, b, c)`.
pub open spec fn spec_cross_x(a: Vec3, b: Vec3, c: Vec3) -> int {
    (b.y - a.y) * (c.z - a.z) - (b.z - a.z) * (c.y - a.y)
}

pub open spec fn spec_cross_y(a: Vec3, b: Vec3, c: Vec3) -> int {
    (b.z - a.z) * (c.x - a.x) - (b.x - a.x) * (c.z - a.z)
}

pub open spec fn spec_cross_z(a: Vec3, b: Vec3, c: Vec3) -> int {
    (b.x - a.x) * (c.y - a.y) - (b.y - a.y) * (c.x - a.x)
}

/// The squared norm of the cross product of the edge vectors of a
/// triangle; four times the squared area of the triangle.
pub open spec fn spec_sq_cross(a: Vec3, b: Vec3, c: Vec3) -> int {
    spec_cross_x(a, b, c) * spec_cross_x(a, b, c) + spec_cross_y(a, b, c) * spec_cross_y(a, b, c)
        + spec_cross_z(a, b, c) * spec_cross_z(a, b, c)
}

/// A product of two bounded factors is bounded by the product of the bounds.
proof fn lemma_mul_bound(a: int, b: int, m: int, n: int)
    requires
        -m <= a <= m,
        -n <= b <= n,
        0 <= m,
        0 <= n,
    ensures
        -(m * n) <= a * b <= m * n,
{
    assert(-(m * n) <= a * b <= m * n) by (nonlinear_arith)
        requires
            -m <= a <= m,
            -n <= b <= n,
            0 <= m,
            0 <= n,
    ;
}

/// The square of a bounded value is nonnegative and bounded.
proof fn lemma_sq_bound(a: int, m: int)
    requires
        -m <= a <= m,
        0 <= m,
    ensures
        0 <= a * a <= m * m,
{
    assert(0 <= a * a <= m * m) by (nonlinear_arith)
        requires
            -m <= a <= m,
            0 <= m,
    ;
}

/// The squared distance between two in-range positions, computed exactly.
pub fn sq_distance(a: Vec3, b: Vec3) -> (r: i64)
    requires
        position_in_range(a),
        position_in_range(b),
    ensures
        r == spec_sq_distance(a, b),
        r >= 0,
{
    proof {
        lemma_sq_bound(a.x - b.x, 1_000_000_000);
        lemma_sq_bound(a.y - b.y, 1_000_000_000);
        lemma_sq_bound(a.z - b.z, 1_000_000_000);
    }
    let dx = a.x - b.x;
    let dy = a.y - b.y;
    let dz = a.z - b.z;
    dx * dx + dy * dy + dz * dz
}

/// The squared cross-product norm of a triangle of in-range positions,
/// computed exactly in 128-bit arithmetic.
pub fn sq_cross(a: Vec3, b: Vec3, c: Vec3) -> (r: i128)
    requires
        position_in_range(a),
        position_in_range(b),
        position_in_range(c),
    ensures
        r == spec_sq_cross(a, b, c),
        r >= 0,
{
    let ux = (b.x - a.x) as i128;
    let uy = (b.y - a.y) as i128;
    let uz = (b.z - a.z) as i128;
    let vx = (c.x - a.x) as i128;
    let vy = (c.y - a.y) as i128;
    let vz = (c.z - a.z) as i128;
    proof {
        let l: int = 1_000_000_000;
        lemma_mul_bound(uy as int, vz as int, l, l);
        lemma_mul_bound(uz as int, vy as int, l, l);
        lemma_mul_bound(uz as int, vx as int, l, l);
        lemma_mul_bound(ux as int, vz as int, l, l);
        lemma_mul_bound(ux as int, vy as int, l, l);
        lemma_mul_bound(uy as int, vx as int, l, l);
        lemma_sq_bound(uy as int * vz as int - uz as int * vy as int, 2_000_000_000_000_000_000);
        lemma_sq_bound(uz as int * vx as int - ux as int * vz as int, 2_000_000_000_000_000_000);
        lemma_sq_bound(ux as int * vy as int - uy as int * vx as int, 2_000_000_000_000_000_000);
    }
    let cx = uy * vz - uz * vy;
    let cy = uz * vx - ux * vz;
    let cz = ux * vy - uy * vx;
    cx * cx + cy * cy + cz * cz
}

} // verus!
