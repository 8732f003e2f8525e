use vstd::prelude::*;
use vstd::arithmetic::div_mod::lemma_div_nonincreasing;

use crate::color::Color;
use crate::math::{isqrt, lemma_mul_bounds, lemma_tdiv_bound, sqrt_floor, tdiv, tdiv_i128};
use crate::ray::{gray_point, hit_in_range, opt_hit_matches, HitM, Ray, RayIntersection};
use crate::vec3::{
    bounded, gdot, gscale, gsub, gv, in_range, lemma_gdot_bound, lemma_gdot_scale2,
    lemma_gdot_self_nonneg, GVec, Vec3,
};
use crate::{MAX_COORD, SCALE, SPHERE_T_EPS};

verus! {

pub struct Sphere {
    pub center: Vec3,
    pub radius: i128,
    pub color: Color,
}

/// Vector from the sphere's center to the ray origin.
pub open spec fn sphere_oc(s: Sphere, o: GVec) -> GVec {
    gsub(o, gv(s.center))
}

/// Quadratic coefficient a = D.D of |O + t D - C|^2 = r^2.
pub open spec fn sphere_a(d: GVec) -> int {
    gdot(d, d)
}

/// Quadratic coefficient b = 2 (O - C).D.
pub open spec fn sphere_b(s: Sphere, o: GVec, d: GVec) -> int {
    2 * gdot(sphere_oc(s, o), d)
}

/// Quadratic coefficient c = (O - C).(O - C) - r^2.
pub open spec fn sphere_c(s: Sphere, o: GVec) -> int {
    gdot(sphere_oc(s, o), sphere_oc(s, o)) - s.radius * s.radius
}

/// Discriminant of the quadratic; its sign decides hit or miss.
pub open spec fn sphere_disc(s: Sphere, o: GVec, d: GVec) -> int {
    let a = sphere_a(d);
    let b = sphere_b(s, o, d);
    let c = sphere_c(s, o);
    b * b - 4 * a * c
}

/// The chosen root, in fixed-point ray-parameter units: the smaller root
/// if it clears the self-intersection epsilon, else the larger root,
/// unconditionally.  (The larger root may still be behind the ray origin;
/// that outcome is kept as is.)
pub open spec fn sphere_t(s: Sphere, o: GVec, d: GVec) -> int {
    let a = sphere_a(d);
    let b = sphere_b(s, o, d);
    let sq = sqrt_floor(sphere_disc(s, o, d));
    let t0 = tdiv((-b - sq) * SCALE, 2 * a);
    let t1 = tdiv((-b + sq) * SCALE, 2 * a);
    if t0 < t1 && t0 > SPHERE_T_EPS {
        t0
    } else {
        t1
    }
}

/// Outward unit normal at point `p` of the sphere: (p - C) / r.
pub open spec fn sphere_normal(s: Sphere, p: GVec) -> GVec {
    GVec {
        x: tdiv((p.x - s.center.x) * SCALE, s.radius as int),
        y: tdiv((p.y - s.center.y) * SCALE, s.radius as int),
        z: tdiv((p.z - s.center.z) * SCALE, s.radius as int),
    }
}

/// The full intersection outcome: a miss when the direction is the zero
/// vector or the discriminant is negative, otherwise a hit at the chosen
/// root, whose distance is that root's magnitude.
pub open spec fn sphere_hit(s: Sphere, o: GVec, d: GVec) -> Option<HitM> {
    if sphere_a(d) == 0 {
        None
    } else if sphere_disc(s, o, d) < 0 {
        None
    } else {
        let t = sphere_t(s, o, d);
        let p = gray_point(o, d, t);
        Some(
            HitM {
                dist: if t < 0 { -t } else { t },
                point: p,
                norm: sphere_normal(s, p),
                color: s.color,
            },
        )
    }
}

impl Sphere {
    pub open spec fn wf(&self) -> bool {
        in_range(self.center) && 0 < self.radius <= MAX_COORD
    }

    /// Analytic ray-sphere intersection by the quadratic formula.
    pub fn intersects(&self, r: &Ray) -> (res: Option<RayIntersection>)
        requires
            self.wf(),
            r.wf(),
        ensures
            opt_hit_matches(res, sphere_hit(*self, gv(r.origin), gv(r.dir))),
            hit_in_range(res),
    {
        let oc = r.origin.sub(&self.center);
        let a = r.dir.dot(&r.dir);
        proof {
            lemma_gdot_self_nonneg(gv(r.dir));
            lemma_gdot_bound(gv(r.dir), gv(r.dir), 500_000_000, 500_000_000);
            lemma_gdot_bound(gv(oc), gv(r.dir), 1_000_000_000, 500_000_000);
            lemma_gdot_bound(gv(oc), gv(oc), 1_000_000_000, 1_000_000_000);
            lemma_mul_bounds(self.radius as int, self.radius as int, 500_000_000, 500_000_000);
        }
        if a == 0 {
            return None;
        }
        let b: i128 = 2 * oc.dot(&r.dir);
        let c: i128 = oc.dot(&oc) - self.radius * self.radius;
        proof {
            lemma_mul_bounds(b as int, b as int, 3_000_000_000_000_000_000, 3_000_000_000_000_000_000);
            lemma_mul_bounds(
                4 * a as int,
                c as int,
                6_000_000_000_000_000_000,
                3_250_000_000_000_000_000,
            );
        }
        let disc: i128 = b * b - 4 * a * c;
        if disc < 0 {
            return None;
        }
        let sq = isqrt(disc);
        proof {
            assert(sq as int <= 6_000_000_000_000_000_000) by (nonlinear_arith)
                requires
                    0 <= sq,
                    sq * sq <= disc,
                    disc <= 28_500_000_000_000_000_000_000_000_000_000_000_000,
            ;
            lemma_mul_bounds(-(b as int) - sq, SCALE as int, 9_000_000_000_000_000_000, SCALE as int);
            lemma_mul_bounds(-(b as int) + sq, SCALE as int, 9_000_000_000_000_000_000, SCALE as int);
            lemma_tdiv_bound(
                (-(b as int) - sq) * SCALE,
                2 * a as int,
                9_000_000_000_000_000_000_000_000,
            );
            lemma_tdiv_bound(
                (-(b as int) + sq) * SCALE,
                2 * a as int,
                9_000_000_000_000_000_000_000_000,
            );
            lemma_div_nonincreasing(9_000_000_000_000_000_000_000_000, 2 * a as int);
        }
        let t0 = tdiv_i128((-b - sq) * SCALE, 2 * a);
        let t1 = tdiv_i128((-b + sq) * SCALE, 2 * a);
        let t = if t0 < t1 && t0 > SPHERE_T_EPS {
            t0
        } else {
            t1
        };
        let p = r.point(t);
        proof {
            lemma_mul_bounds(t as int, r.dir.x as int, 9_000_000_000_000_000_000_000_000, 500_000_000);
            lemma_mul_bounds(t as int, r.dir.y as int, 9_000_000_000_000_000_000_000_000, 500_000_000);
            lemma_mul_bounds(t as int, r.dir.z as int, 9_000_000_000_000_000_000_000_000, 500_000_000);
            lemma_tdiv_bound(
                t as int * r.dir.x as int,
                SCALE as int,
                4_500_000_000_000_000_000_000_000_000_000_000,
            );
            lemma_tdiv_bound(
                t as int * r.dir.y as int,
                SCALE as int,
                4_500_000_000_000_000_000_000_000_000_000_000,
            );
            lemma_tdiv_bound(
                t as int * r.dir.z as int,
                SCALE as int,
                4_500_000_000_000_000_000_000_000_000_000_000,
            );
            lemma_mul_bounds(
                p.x as int - self.center.x as int,
                SCALE as int,
                5_000_000_000_000_000_000_000_000_000,
                SCALE as int,
            );
            lemma_mul_bounds(
                p.y as int - self.center.y as int,
                SCALE as int,
                5_000_000_000_000_000_000_000_000_000,
                SCALE as int,
            );
            lemma_mul_bounds(
                p.z as int - self.center.z as int,
                SCALE as int,
                5_000_000_000_000_000_000_000_000_000,
                SCALE as int,
            );
            lemma_tdiv_bound(
                (p.x as int - self.center.x as int) * SCALE,
                self.radius as int,
                5_000_000_000_000_000_000_000_000_000_000_000,
            );
            lemma_tdiv_bound(
                (p.y as int - self.center.y as int) * SCALE,
                self.radius as int,
                5_000_000_000_000_000_000_000_000_000_000_000,
            );
            lemma_tdiv_bound(
                (p.z as int - self.center.z as int) * SCALE,
                self.radius as int,
                5_000_000_000_000_000_000_000_000_000_000_000,
            );
            lemma_div_nonincreasing(
                5_000_000_000_000_000_000_000_000_000_000_000,
                self.radius as int,
            );
        }
        let nx = tdiv_i128((p.x - self.center.x) * SCALE, self.radius);
        let ny = tdiv_i128((p.y - self.center.y) * SCALE, self.radius);
        let nz = tdiv_i128((p.z - self.center.z) * SCALE, self.radius);
        let dist = if t < 0 {
            -t
        } else {
            t
        };
        Some(
            RayIntersection {
                norm: Vec3 { x: nx, y: ny, z: nz },
                dist,
                point: p,
                color: self.color,
            },
        )
    }

    pub fn color(&self) -> (c: Color)
        ensures
            c == self.color,
    {
        self.color
    }
}

/// A ray fired from outside the center straight at the center can never
/// miss: along such a direction the discriminant collapses to the square
/// term 4 k^2 |C - O|^2 r^2, which is non-negative, so the intersection
/// reports a hit.
pub proof fn lemma_ray_through_center_hits(s: Sphere, o: GVec, k: int)
    requires
        s.wf(),
        k > 0,
        gsub(gv(s.center), o) != (GVec { x: 0, y: 0, z: 0 }),
    ensures
        ({
            let d = gscale(k, gsub(gv(s.center), o));
            sphere_disc(s, o, d) == 4 * (k * k * gdot(gsub(gv(s.center), o), gsub(gv(s.center), o)))
                * (s.radius * s.radius) && sphere_hit(s, o, d) is Some
        }),
{
    let u = gsub(gv(s.center), o);
    let d = gscale(k, u);
    let m = gdot(u, u);
    let r2 = s.radius as int * s.radius as int;
    assert(m > 0) by (nonlinear_arith)
        requires
            m == u.x * u.x + u.y * u.y + u.z * u.z,
            !(u.x == 0 && u.y == 0 && u.z == 0),
    ;
    assert(sphere_oc(s, o) == gscale(-1, u));
    lemma_gdot_scale2(-1, u, k, u);
    lemma_gdot_scale2(k, u, k, u);
    lemma_gdot_scale2(-1, u, -1, u);
    assert(sphere_a(d) == k * k * m);
    assert(sphere_b(s, o, d) == 2 * (-1 * k * m));
    assert(sphere_c(s, o) == -1 * -1 * m - r2);
    assert((2 * (-1 * k * m)) * (2 * (-1 * k * m)) - 4 * (k * k * m) * (-1 * -1 * m - r2) == 4 * (k
        * k * m) * r2) by (nonlinear_arith);
    assert(4 * (k * k * m) * r2 >= 0) by (nonlinear_arith)
        requires
            m > 0,
            k > 0,
            r2 == s.radius as int * s.radius as int,
    ;
    assert(k * k * m != 0) by (nonlinear_arith)
        requires
            m > 0,
            k > 0,
    ;
}

} // verus!
