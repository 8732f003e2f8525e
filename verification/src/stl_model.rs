use vstd::prelude::*;

use crate::color::Color;
use crate::ray::{closer_opt, hit_in_range, opt_hit_matches, HitM, Ray, RayIntersection};
use crate::triangle::{tri_norm, triangle_hit, Triangle};
use crate::vec3::{gv, in_range, GVec, Vec3};

verus! {

/// A triangle mesh: many triangles sharing one color, aggregated so the
/// whole model composes as a single scene object.  The raw vertex triples
/// come from a mesh-file reader; this type owns only the geometry.
pub struct StlModel {
    pub color: Color,
    pub triangles: Vec<Triangle>,
}

/// The triangle a raw face builds: the three vertices in order, the
/// mesh's color, and the constant winding.
pub open spec fn face_triangle(t: Triangle, f: (Vec3, Vec3, Vec3), c: Color) -> bool {
    t.v0 == f.0 && t.v1 == f.1 && t.v2 == f.2 && t.color == c && gv(t.norm) == tri_norm(
        gv(f.0),
        gv(f.1),
        gv(f.2),
        true,
    )
}

/// Closest hit among the first `n` triangles, earlier triangle winning
/// equal distances.
pub open spec fn mesh_hit_upto(tris: Seq<Triangle>, o: GVec, d: GVec, n: int) -> Option<HitM>
    decreases n,
{
    if n <= 0 {
        None
    } else {
        closer_opt(mesh_hit_upto(tris, o, d, n - 1), triangle_hit(tris[n - 1], o, d))
    }
}

/// The mesh's intersection outcome: the minimum-distance hit over all
/// its triangles.
pub open spec fn mesh_hit(m: StlModel, o: GVec, d: GVec) -> Option<HitM> {
    mesh_hit_upto(m.triangles@, o, d, m.triangles@.len() as int)
}

impl StlModel {
    pub open spec fn wf(&self) -> bool {
        forall|i: int| 0 <= i < self.triangles@.len() ==> (#[trigger] self.triangles@[i]).wf()
    }

    /// Builds the mesh from raw faces, each face three vertex triples,
    /// every triangle taking the mesh's color and the same winding.
    pub fn new(faces: &Vec<(Vec3, Vec3, Vec3)>, color: Color) -> (m: StlModel)
        requires
            forall|i: int|
                0 <= i < faces@.len() ==> in_range((#[trigger] faces@[i]).0) && in_range(
                    faces@[i].1,
                ) && in_range(faces@[i].2),
        ensures
            m.color == color,
            m.triangles@.len() == faces@.len(),
            forall|i: int|
                0 <= i < faces@.len() ==> face_triangle(
                    #[trigger] m.triangles@[i],
                    faces@[i],
                    color,
                ),
            m.wf(),
    {
        let mut triangles: Vec<Triangle> = Vec::new();
        let mut i: usize = 0;
        while i < faces.len()
            invariant
                0 <= i <= faces@.len(),
                triangles@.len() == i,
                forall|i2: int|
                    0 <= i2 < faces@.len() ==> in_range((#[trigger] faces@[i2]).0) && in_range(
                        faces@[i2].1,
                    ) && in_range(faces@[i2].2),
                forall|j: int|
                    0 <= j < i ==> face_triangle(#[trigger] triangles@[j], faces@[j], color),
                forall|j: int| 0 <= j < i ==> (#[trigger] triangles@[j]).wf(),
            decreases faces@.len() - i,
        {
            let f = faces[i];
            let t = Triangle::new(f.0, f.1, f.2, color, true);
            triangles.push(t);
            i = i + 1;
        }
        StlModel { color, triangles }
    }

    /// Delegates to every contained triangle and keeps the
    /// minimum-distance hit, mirroring the scene-level reduction.
    pub fn intersects(&self, r: &Ray) -> (res: Option<RayIntersection>)
        requires
            self.wf(),
            r.wf(),
        ensures
            opt_hit_matches(res, mesh_hit(*self, gv(r.origin), gv(r.dir))),
            hit_in_range(res),
    {
        let mut best: Option<RayIntersection> = None;
        let mut i: usize = 0;
        while i < self.triangles.len()
            invariant
                0 <= i <= self.triangles@.len(),
                self.wf(),
                r.wf(),
                opt_hit_matches(best, mesh_hit_upto(self.triangles@, gv(r.origin), gv(r.dir), i as int)),
                hit_in_range(best),
            decreases self.triangles@.len() - i,
        {
            let cur = self.triangles[i].intersects(r);
            match cur {
                None => {},
                Some(c) => {
                    let take = match &best {
                        None => true,
                        Some(b) => c.dist < b.dist,
                    };
                    if take {
                        best = Some(c);
                    }
                },
            }
            i = i + 1;
        }
        best
    }

    pub fn color(&self) -> (c: Color)
        ensures
            c == self.color,
    {
        self.color
    }
}

} // verus!
