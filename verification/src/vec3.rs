use vstd::prelude::*;
use vstd::arithmetic::div_mod::lemma_div_multiples_vanish;

use crate::math::{isqrt, lemma_mul_bounds, lemma_tdiv_bound, sqrt_floor, tdiv, tdiv_i128};
use crate::{MAX_COORD, SCALE};

verus! {

/// A 3D vector with fixed-point components (millionths of a world unit).
#[derive(Clone, Copy, PartialEq, Eq, Structural, Debug)]
pub struct Vec3 {
    pub x: i128,
    pub y: i128,
    pub z: i128,
}

/// The mathematical-integer shadow of a vector, for specifications.
pub ghost struct GVec {
    pub x: int,
    pub y: int,
    pub z: int,
}

/// The integer triple a vector holds.
pub open spec fn gv(v: Vec3) -> GVec {
    GVec { x: v.x as int, y: v.y as int, z: v.z as int }
}

pub open spec fn gadd(a: GVec, b: GVec) -> GVec {
    GVec { x: a.x + b.x, y: a.y + b.y, z: a.z + b.z }
}

pub open spec fn gsub(a: GVec, b: GVec) -> GVec {
    GVec { x: a.x - b.x, y: a.y - b.y, z: a.z - b.z }
}

pub open spec fn gscale(k: int, a: GVec) -> GVec {
    GVec { x: k * a.x, y: k * a.y, z: k * a.z }
}

/// Dot product; on fixed-point operands the result carries two scale factors.
pub open spec fn gdot(a: GVec, b: GVec) -> int {
    a.x * b.x + a.y * b.y + a.z * b.z
}

/// Cross product, kept at the raw product scale (two scale factors).
pub open spec fn gcross(a: GVec, b: GVec) -> GVec {
    GVec {
        x: a.y * b.z - a.z * b.y,
        y: a.z * b.x - a.x * b.z,
        z: a.x * b.y - a.y * b.x,
    }
}

/// Approximate unit vector: each component is v_i * SCALE divided by the
/// floor of |v|, rounded toward zero; the zero vector stays zero.
pub open spec fn gnormalize(v: GVec) -> GVec {
    let l = sqrt_floor(gdot(v, v));
    if l == 0 {
        GVec { x: 0, y: 0, z: 0 }
    } else {
        GVec { x: tdiv(v.x * SCALE, l), y: tdiv(v.y * SCALE, l), z: tdiv(v.z * SCALE, l) }
    }
}

/// Scene geometry must keep its coordinates within this range; it is what
/// lets every intermediate product of the intersection arithmetic fit in
/// an `i128`.
pub open spec fn in_range(v: Vec3) -> bool {
    -MAX_COORD <= v.x <= MAX_COORD && -MAX_COORD <= v.y <= MAX_COORD && -MAX_COORD <= v.z
        <= MAX_COORD
}

/// Magnitude bound on every component at once.
pub open spec fn bounded(v: GVec, m: int) -> bool {
    -m <= v.x <= m && -m <= v.y <= m && -m <= v.z <= m
}

/// Bound on the operands of `dot` and `cross` below which their arithmetic
/// cannot overflow.
pub const OP_BOUND: i128 = 2_000_000_000_000_000_000;

impl Vec3 {
    pub fn new(x: i128, y: i128, z: i128) -> (r: Vec3)
        ensures
            r.x == x && r.y == y && r.z == z,
    {
        Vec3 { x, y, z }
    }

    pub fn add(&self, o: &Vec3) -> (r: Vec3)
        requires
            bounded(gv(*self), OP_BOUND as int),
            bounded(gv(*o), OP_BOUND as int),
        ensures
            gv(r) == gadd(gv(*self), gv(*o)),
    {
        Vec3 { x: self.x + o.x, y: self.y + o.y, z: self.z + o.z }
    }

    pub fn sub(&self, o: &Vec3) -> (r: Vec3)
        requires
            bounded(gv(*self), OP_BOUND as int),
            bounded(gv(*o), OP_BOUND as int),
        ensures
            gv(r) == gsub(gv(*self), gv(*o)),
    {
        Vec3 { x: self.x - o.x, y: self.y - o.y, z: self.z - o.z }
    }

    pub fn dot(&self, o: &Vec3) -> (r: i128)
        requires
            bounded(gv(*self), OP_BOUND as int),
            bounded(gv(*o), OP_BOUND as int),
        ensures
            r == gdot(gv(*self), gv(*o)),
    {
        proof {
            lemma_mul_bounds(self.x as int, o.x as int, OP_BOUND as int, OP_BOUND as int);
            lemma_mul_bounds(self.y as int, o.y as int, OP_BOUND as int, OP_BOUND as int);
            lemma_mul_bounds(self.z as int, o.z as int, OP_BOUND as int, OP_BOUND as int);
        }
        self.x * o.x + self.y * o.y + self.z * o.z
    }

    pub fn cross(&self, o: &Vec3) -> (r: Vec3)
        requires
            bounded(gv(*self), OP_BOUND as int),
            bounded(gv(*o), OP_BOUND as int),
        ensures
            gv(r) == gcross(gv(*self), gv(*o)),
    {
        proof {
            lemma_mul_bounds(self.y as int, o.z as int, OP_BOUND as int, OP_BOUND as int);
            lemma_mul_bounds(self.z as int, o.y as int, OP_BOUND as int, OP_BOUND as int);
            lemma_mul_bounds(self.z as int, o.x as int, OP_BOUND as int, OP_BOUND as int);
            lemma_mul_bounds(self.x as int, o.z as int, OP_BOUND as int, OP_BOUND as int);
            lemma_mul_bounds(self.x as int, o.y as int, OP_BOUND as int, OP_BOUND as int);
            lemma_mul_bounds(self.y as int, o.x as int, OP_BOUND as int, OP_BOUND as int);
        }
        Vec3 {
            x: self.y * o.z - self.z * o.y,
            y: self.z * o.x - self.x * o.z,
            z: self.x * o.y - self.y * o.x,
        }
    }

    /// Direction scaled to (approximately) unit length.
    pub fn normalize(&self) -> (r: Vec3)
        requires
            bounded(gv(*self), 2 * MAX_COORD as int),
        ensures
            gv(r) == gnormalize(gv(*self)),
            bounded(gv(r), SCALE as int),
    {
        proof {
            lemma_mul_bounds(self.x as int, self.x as int, 1_000_000_000, 1_000_000_000);
            lemma_mul_bounds(self.y as int, self.y as int, 1_000_000_000, 1_000_000_000);
            lemma_mul_bounds(self.z as int, self.z as int, 1_000_000_000, 1_000_000_000);
        }
        let len2: i128 = self.x * self.x + self.y * self.y + self.z * self.z;
        proof {
            assert(self.x * self.x >= 0) by (nonlinear_arith);
            assert(self.y * self.y >= 0) by (nonlinear_arith);
            assert(self.z * self.z >= 0) by (nonlinear_arith);
        }
        let len: i128 = isqrt(len2);
        if len == 0 {
            Vec3 { x: 0, y: 0, z: 0 }
        } else {
            proof {
                lemma_component_below_norm(self.x as int, len2 as int, len as int);
                lemma_component_below_norm(self.y as int, len2 as int, len as int);
                lemma_component_below_norm(self.z as int, len2 as int, len as int);
                lemma_mul_bounds(self.x as int, SCALE as int, len as int, SCALE as int);
                lemma_mul_bounds(self.y as int, SCALE as int, len as int, SCALE as int);
                lemma_mul_bounds(self.z as int, SCALE as int, len as int, SCALE as int);
                lemma_tdiv_bound(self.x as int * SCALE, len as int, len as int * SCALE);
                lemma_tdiv_bound(self.y as int * SCALE, len as int, len as int * SCALE);
                lemma_tdiv_bound(self.z as int * SCALE, len as int, len as int * SCALE);
                lemma_div_multiples_vanish(SCALE as int, len as int);
                assert(len as int * SCALE == SCALE * len as int) by (nonlinear_arith);
            }
            Vec3 {
                x: tdiv_i128(self.x * SCALE, len),
                y: tdiv_i128(self.y * SCALE, len),
                z: tdiv_i128(self.z * SCALE, len),
            }
        }
    }
}

/// An approximately normalized vector has every component within one
/// fixed-point unit of length.
pub proof fn lemma_gnormalize_component_in_unit(v: GVec)
    ensures
        bounded(gnormalize(v), SCALE as int),
{
    let len2 = gdot(v, v);
    lemma_gdot_self_nonneg(v);
    crate::math::lemma_sqrt_floor_props(len2);
    let l = sqrt_floor(len2);
    if l != 0 {
        assert(v.x * v.x <= len2 && v.y * v.y <= len2 && v.z * v.z <= len2) by (nonlinear_arith)
            requires
                len2 == v.x * v.x + v.y * v.y + v.z * v.z,
        ;
        lemma_component_below_norm(v.x, len2, l);
        lemma_component_below_norm(v.y, len2, l);
        lemma_component_below_norm(v.z, len2, l);
        lemma_mul_bounds(v.x, SCALE as int, l, SCALE as int);
        lemma_mul_bounds(v.y, SCALE as int, l, SCALE as int);
        lemma_mul_bounds(v.z, SCALE as int, l, SCALE as int);
        lemma_tdiv_bound(v.x * SCALE, l, l * SCALE);
        lemma_tdiv_bound(v.y * SCALE, l, l * SCALE);
        lemma_tdiv_bound(v.z * SCALE, l, l * SCALE);
        lemma_div_multiples_vanish(SCALE as int, l);
        assert(l * SCALE == SCALE * l) by (nonlinear_arith);
    }
}

/// A dot product is bounded by three times the product of the operands'
/// component bounds.
pub proof fn lemma_gdot_bound(a: GVec, b: GVec, ma: int, mb: int)
    by (nonlinear_arith)
    requires
        bounded(a, ma),
        bounded(b, mb),
        0 <= ma,
        0 <= mb,
    ensures
        -(3 * ma * mb) <= gdot(a, b) <= 3 * ma * mb,
{
}

/// Scaling both operands scales a dot product by both factors.
pub proof fn lemma_gdot_scale2(j: int, a: GVec, k: int, b: GVec)
    ensures
        gdot(gscale(j, a), gscale(k, b)) == j * k * gdot(a, b),
{
    assert((j * a.x) * (k * b.x) == (j * k) * (a.x * b.x)) by (nonlinear_arith);
    assert((j * a.y) * (k * b.y) == (j * k) * (a.y * b.y)) by (nonlinear_arith);
    assert((j * a.z) * (k * b.z) == (j * k) * (a.z * b.z)) by (nonlinear_arith);
    assert((j * k) * (a.x * b.x) + (j * k) * (a.y * b.y) + (j * k) * (a.z * b.z) == (j * k) * (a.x
        * b.x + a.y * b.y + a.z * b.z)) by (nonlinear_arith);
    assert(j * k * gdot(a, b) == (j * k) * gdot(a, b)) by (nonlinear_arith);
}

/// A dot product of a vector with itself is a sum of squares.
pub proof fn lemma_gdot_self_nonneg(a: GVec)
    by (nonlinear_arith)
    ensures
        gdot(a, a) >= 0,
{
}

/// Each cross-product component is bounded by twice the product of the
/// operands' component bounds.
pub proof fn lemma_gcross_bound(a: GVec, b: GVec, ma: int, mb: int)
    requires
        bounded(a, ma),
        bounded(b, mb),
        0 <= ma,
        0 <= mb,
    ensures
        bounded(gcross(a, b), 2 * ma * mb),
{
    lemma_mul_bounds(a.y, b.z, ma, mb);
    lemma_mul_bounds(a.z, b.y, ma, mb);
    lemma_mul_bounds(a.z, b.x, ma, mb);
    lemma_mul_bounds(a.x, b.z, ma, mb);
    lemma_mul_bounds(a.x, b.y, ma, mb);
    lemma_mul_bounds(a.y, b.x, ma, mb);
    assert(2 * ma * mb == 2 * (ma * mb)) by (nonlinear_arith);
}

/// A component of a vector is no larger in magnitude than the floor of the
/// vector's length, because its square is at most the squared length.
proof fn lemma_component_below_norm(c: int, len2: int, l: int)
    by (nonlinear_arith)
    requires
        c * c <= len2,
        0 <= l,
        len2 < (l + 1) * (l + 1),
    ensures
        -l <= c <= l,
{
}

} // verus!
