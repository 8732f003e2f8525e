use vstd::prelude::*;

use crate::color::Color;
use crate::math::{lemma_mul_bounds, lemma_tdiv_bound, tdiv, tdiv_i128};
use crate::vec3::{bounded, gv, in_range, GVec, Vec3};
use crate::{MAX_COORD, NORM_BOUND, SCALE, TPARAM_BOUND};

verus! {

/// A half-line: every point of it is origin + t * dir for a ray
/// parameter t.  The direction need not be unit length; consumers
/// normalize where they need to.
pub struct Ray {
    pub origin: Vec3,
    pub dir: Vec3,
}

impl Ray {
    pub fn new(origin: Vec3, dir: Vec3) -> (r: Ray)
        ensures
            r.origin == origin && r.dir == dir,
    {
        Ray { origin, dir }
    }

    /// Rays built from scene geometry stay within the coordinate range.
    pub open spec fn wf(&self) -> bool {
        in_range(self.origin) && in_range(self.dir)
    }

    /// The point at ray parameter `t` (fixed-point, so the product
    /// carries one scale factor that the division removes).
    pub fn point(&self, t: i128) -> (p: Vec3)
        requires
            self.wf(),
            -TPARAM_BOUND <= t <= TPARAM_BOUND,
        ensures
            gv(p) == gray_point(gv(self.origin), gv(self.dir), t as int),
    {
        proof {
            lemma_point_coord_bounds(gv(self.dir), t as int);
        }
        Vec3 {
            x: self.origin.x + tdiv_i128(t * self.dir.x, SCALE),
            y: self.origin.y + tdiv_i128(t * self.dir.y, SCALE),
            z: self.origin.z + tdiv_i128(t * self.dir.z, SCALE),
        }
    }
}

/// The point a ray reaches at parameter `t`, component by component.
pub open spec fn gray_point(o: GVec, d: GVec, t: int) -> GVec {
    GVec {
        x: o.x + tdiv(t * d.x, SCALE as int),
        y: o.y + tdiv(t * d.y, SCALE as int),
        z: o.z + tdiv(t * d.z, SCALE as int),
    }
}

proof fn lemma_point_coord_bounds(d: GVec, t: int)
    requires
        bounded(d, MAX_COORD as int),
        -TPARAM_BOUND <= t <= TPARAM_BOUND,
    ensures
        -5_000_000_000_000_000_000_000_000_000_000_000 <= t * d.x
            <= 5_000_000_000_000_000_000_000_000_000_000_000,
        -5_000_000_000_000_000_000_000_000_000_000_000 <= t * d.y
            <= 5_000_000_000_000_000_000_000_000_000_000_000,
        -5_000_000_000_000_000_000_000_000_000_000_000 <= t * d.z
            <= 5_000_000_000_000_000_000_000_000_000_000_000,
        -5_000_000_000_000_000_000_000_000_000 <= tdiv(t * d.x, SCALE as int)
            <= 5_000_000_000_000_000_000_000_000_000,
        -5_000_000_000_000_000_000_000_000_000 <= tdiv(t * d.y, SCALE as int)
            <= 5_000_000_000_000_000_000_000_000_000,
        -5_000_000_000_000_000_000_000_000_000 <= tdiv(t * d.z, SCALE as int)
            <= 5_000_000_000_000_000_000_000_000_000,
{
    lemma_mul_bounds(t, d.x, TPARAM_BOUND as int, MAX_COORD as int);
    lemma_mul_bounds(t, d.y, TPARAM_BOUND as int, MAX_COORD as int);
    lemma_mul_bounds(t, d.z, TPARAM_BOUND as int, MAX_COORD as int);
    assert(TPARAM_BOUND as int * MAX_COORD as int
        == 5_000_000_000_000_000_000_000_000_000_000_000) by (nonlinear_arith);
    lemma_tdiv_bound(t * d.x, SCALE as int, 5_000_000_000_000_000_000_000_000_000_000_000);
    lemma_tdiv_bound(t * d.y, SCALE as int, 5_000_000_000_000_000_000_000_000_000_000_000);
    lemma_tdiv_bound(t * d.z, SCALE as int, 5_000_000_000_000_000_000_000_000_000_000_000);
    assert(5_000_000_000_000_000_000_000_000_000_000_000int / (SCALE as int)
        == 5_000_000_000_000_000_000_000_000_000) by (nonlinear_arith);
}

/// Closest-hit reduction step: keep the earlier hit unless the later one
/// is strictly closer, so that on equal distances the earlier contender
/// wins.
pub open spec fn closer_opt(prev: Option<HitM>, cur: Option<HitM>) -> Option<HitM> {
    match (prev, cur) {
        (None, c) => c,
        (Some(p), None) => Some(p),
        (Some(p), Some(c)) => if c.dist < p.dist {
            Some(c)
        } else {
            Some(p)
        },
    }
}

/// A successful hit: the ray parameter of the hit (`dist`), the hit point,
/// the surface normal there, and the hit object's color.  The original
/// record kept a back-reference to the hit object only to recover its
/// color once the winner was chosen; carrying the color directly says the
/// same thing without the lifetime.
#[derive(Clone, Copy)]
pub struct RayIntersection {
    pub norm: Vec3,
    pub dist: i128,
    pub point: Vec3,
    pub color: Color,
}

/// The mathematical-integer shadow of an intersection record.
pub ghost struct HitM {
    pub dist: int,
    pub point: GVec,
    pub norm: GVec,
    pub color: Color,
}

pub open spec fn hit_matches(i: RayIntersection, m: HitM) -> bool {
    i.dist == m.dist && gv(i.point) == m.point && gv(i.norm) == m.norm && i.color == m.color
}

pub open spec fn opt_hit_matches(r: Option<RayIntersection>, m: Option<HitM>) -> bool {
    match (r, m) {
        (Some(i), Some(h)) => hit_matches(i, h),
        (None, None) => true,
        _ => false,
    }
}

/// What every intersection routine guarantees of a hit it reports, so
/// that the shader's arithmetic stays in range.
pub open spec fn hit_in_range(r: Option<RayIntersection>) -> bool {
    match r {
        Some(i) => 0 <= i.dist && bounded(gv(i.norm), NORM_BOUND as int),
        None => true,
    }
}

} // verus!
