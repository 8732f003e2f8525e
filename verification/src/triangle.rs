use vstd::prelude::*;

use crate::color::Color;
use crate::math::{
    lemma_mul_bounds, lemma_tdiv_bound, lemma_tdiv_s_bound, tdiv, tdiv_i128, tdiv_s, tdiv_s_i128,
};
use crate::ray::{gray_point, hit_in_range, opt_hit_matches, HitM, Ray, RayIntersection};
use crate::vec3::{
    bounded, gcross, gdot, gsub, gv, in_range, lemma_gcross_bound, lemma_gdot_bound, GVec, Vec3,
};
use crate::{PARALLEL_EPS, SCALE, TRIANGLE_T_EPS};

verus! {

/// Bound on the components of a stored face normal: a cross product of
/// two in-range edges, scaled back down to fixed-point units.
pub const TRI_NORM_BOUND: i128 = 2_000_000_000_000;

/// A triangle with a precomputed face normal and a fixed color.
pub struct Triangle {
    pub v0: Vec3,
    pub v1: Vec3,
    pub v2: Vec3,
    pub norm: Vec3,
    pub color: Color,
}

/// The face normal stored at construction: the cross product of the two
/// edges out of the first vertex, in the order the winding flag picks,
/// scaled back down to fixed-point units.
pub open spec fn tri_norm(v0: GVec, v1: GVec, v2: GVec, heads: bool) -> GVec {
    let c = if heads {
        gcross(gsub(v1, v0), gsub(v2, v0))
    } else {
        gcross(gsub(v2, v0), gsub(v1, v0))
    };
    GVec { x: tdiv(c.x, SCALE as int), y: tdiv(c.y, SCALE as int), z: tdiv(c.z, SCALE as int) }
}

/// First edge out of the first vertex.
pub open spec fn tri_e1(t: Triangle) -> GVec {
    gsub(gv(t.v1), gv(t.v0))
}

/// Second edge out of the first vertex.
pub open spec fn tri_e2(t: Triangle) -> GVec {
    gsub(gv(t.v2), gv(t.v0))
}

/// The determinant of the linear system the intersection solves:
/// edge1 . (D x edge2).  Its magnitude measures how far the ray is from
/// parallel to the triangle's plane; its sign is the orientation.
pub open spec fn tri_det(t: Triangle, d: GVec) -> int {
    gdot(tri_e1(t), gcross(d, tri_e2(t)))
}

/// Numerator of the first barycentric coordinate u = un / det.
pub open spec fn tri_un(t: Triangle, o: GVec, d: GVec) -> int {
    gdot(gsub(o, gv(t.v0)), gcross(d, tri_e2(t)))
}

/// Numerator of the second barycentric coordinate v = vn / det.
pub open spec fn tri_vn(t: Triangle, o: GVec, d: GVec) -> int {
    gdot(d, gcross(gsub(o, gv(t.v0)), tri_e1(t)))
}

/// Numerator of the ray parameter t = tn / det at the plane.
pub open spec fn tri_tn(t: Triangle, o: GVec, d: GVec) -> int {
    gdot(tri_e2(t), gcross(gsub(o, gv(t.v0)), tri_e1(t)))
}

/// The exact rational num / det is negative.
pub open spec fn frac_neg(num: int, det: int) -> bool {
    (det > 0 && num < 0) || (det < 0 && num > 0)
}

/// The exact rational num / det exceeds one.
pub open spec fn frac_gt_one(num: int, det: int) -> bool {
    (det > 0 && num > det) || (det < 0 && num < det)
}

/// The chosen ray parameter, in fixed-point units.
pub open spec fn tri_t(t: Triangle, o: GVec, d: GVec) -> int {
    tdiv_s(tri_tn(t, o, d) * SCALE, tri_det(t, d))
}

/// The full intersection outcome: a miss when the ray is (near) parallel
/// to the plane, when the exact barycentric coordinates u = un/det and
/// v = vn/det leave the triangle (u < 0, u > 1, v < 0 or u + v > 1), or
/// when the hit sits closer than the epsilon along the ray; otherwise a
/// hit at parameter t = tn/det carrying the precomputed face normal.
pub open spec fn triangle_hit(t: Triangle, o: GVec, d: GVec) -> Option<HitM> {
    let det = tri_det(t, d);
    if -PARALLEL_EPS < det < PARALLEL_EPS {
        None
    } else {
        let un = tri_un(t, o, d);
        if frac_neg(un, det) || frac_gt_one(un, det) {
            None
        } else {
            let vn = tri_vn(t, o, d);
            if frac_neg(vn, det) || frac_gt_one(un + vn, det) {
                None
            } else {
                let tt = tri_t(t, o, d);
                if tt > TRIANGLE_T_EPS {
                    Some(
                        HitM {
                            dist: tt,
                            point: gray_point(o, d, tt),
                            norm: gv(t.norm),
                            color: t.color,
                        },
                    )
                } else {
                    None
                }
            }
        }
    }
}

impl Triangle {
    pub open spec fn wf(&self) -> bool {
        in_range(self.v0) && in_range(self.v1) && in_range(self.v2) && bounded(
            gv(self.norm),
            TRI_NORM_BOUND as int,
        )
    }

    /// Builds a triangle and precomputes its face normal; the winding
    /// flag `heads` picks which of the two possible normal directions the
    /// same three vertices report.
    pub fn new(v0: Vec3, v1: Vec3, v2: Vec3, color: Color, heads: bool) -> (t: Triangle)
        requires
            in_range(v0),
            in_range(v1),
            in_range(v2),
        ensures
            t.v0 == v0 && t.v1 == v1 && t.v2 == v2 && t.color == color,
            gv(t.norm) == tri_norm(gv(v0), gv(v1), gv(v2), heads),
            t.wf(),
    {
        let e1 = v1.sub(&v0);
        let e2 = v2.sub(&v0);
        proof {
            lemma_gcross_bound(gv(e1), gv(e2), 1_000_000_000, 1_000_000_000);
            lemma_gcross_bound(gv(e2), gv(e1), 1_000_000_000, 1_000_000_000);
        }
        let c = if heads {
            e1.cross(&e2)
        } else {
            e2.cross(&e1)
        };
        proof {
            lemma_tdiv_bound(c.x as int, SCALE as int, 2_000_000_000_000_000_000);
            lemma_tdiv_bound(c.y as int, SCALE as int, 2_000_000_000_000_000_000);
            lemma_tdiv_bound(c.z as int, SCALE as int, 2_000_000_000_000_000_000);
        }
        let norm = Vec3 {
            x: tdiv_i128(c.x, SCALE),
            y: tdiv_i128(c.y, SCALE),
            z: tdiv_i128(c.z, SCALE),
        };
        Triangle { v0, v1, v2, norm, color }
    }

    /// Ray-triangle intersection: solves for the barycentric coordinates
    /// and the ray parameter, deciding every comparison on the exact
    /// rationals.
    pub fn intersects(&self, r: &Ray) -> (res: Option<RayIntersection>)
        requires
            self.wf(),
            r.wf(),
        ensures
            opt_hit_matches(res, triangle_hit(*self, gv(r.origin), gv(r.dir))),
            hit_in_range(res),
    {
        let e1 = self.v1.sub(&self.v0);
        let e2 = self.v2.sub(&self.v0);
        proof {
            lemma_gcross_bound(gv(r.dir), gv(e2), 500_000_000, 1_000_000_000);
        }
        let h = r.dir.cross(&e2);
        proof {
            lemma_gdot_bound(gv(e1), gv(h), 1_000_000_000, 1_000_000_000_000_000_000);
        }
        let det = e1.dot(&h);
        if det < PARALLEL_EPS && det > -PARALLEL_EPS {
            return None;
        }
        let s = r.origin.sub(&self.v0);
        proof {
            lemma_gdot_bound(gv(s), gv(h), 1_000_000_000, 1_000_000_000_000_000_000);
        }
        let un = s.dot(&h);
        if (det > 0 && un < 0) || (det < 0 && un > 0) {
            return None;
        }
        if (det > 0 && un > det) || (det < 0 && un < det) {
            return None;
        }
        proof {
            lemma_gcross_bound(gv(s), gv(e1), 1_000_000_000, 1_000_000_000);
        }
        let q = s.cross(&e1);
        proof {
            lemma_gdot_bound(gv(r.dir), gv(q), 500_000_000, 2_000_000_000_000_000_000);
        }
        let vn = r.dir.dot(&q);
        if (det > 0 && vn < 0) || (det < 0 && vn > 0) {
            return None;
        }
        if (det > 0 && un + vn > det) || (det < 0 && un + vn < det) {
            return None;
        }
        proof {
            lemma_gdot_bound(gv(e2), gv(q), 1_000_000_000, 2_000_000_000_000_000_000);
            lemma_mul_bounds(
                gdot(gv(e2), gv(q)),
                SCALE as int,
                6_000_000_000_000_000_000_000_000_000,
                SCALE as int,
            );
            lemma_tdiv_s_bound(
                gdot(gv(e2), gv(q)) * SCALE,
                tri_det(*self, gv(r.dir)),
                6_000_000_000_000_000_000_000_000_000_000_000,
                PARALLEL_EPS as int,
            );
        }
        let tn = e2.dot(&q);
        let tt = tdiv_s_i128(tn * SCALE, det);
        if tt > TRIANGLE_T_EPS {
            let p = r.point(tt);
            Some(
                RayIntersection { norm: self.norm, dist: tt, point: p, color: self.color },
            )
        } else {
            None
        }
    }

    pub fn color(&self) -> (c: Color)
        ensures
            c == self.color,
    {
        self.color
    }
}

} // verus!
