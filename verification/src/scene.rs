use vstd::prelude::*;
use vstd::arithmetic::div_mod::{
    lemma_div_is_ordered, lemma_div_multiples_vanish, lemma_div_pos_is_pos,
};

use crate::color::{
    background_channel, background_channel_exec, lemma_background_channel_convex,
    lemma_background_channel_monotone, shade_channel, shade_channel_exec, Color,
};
use crate::math::{lemma_mul_bounds, lemma_tdiv_ordered, tdiv, tdiv_i128};
use crate::ray::{closer_opt, hit_in_range, opt_hit_matches, HitM, Ray, RayIntersection};
use crate::sphere::{sphere_hit, Sphere};
use crate::stl_model::{mesh_hit, StlModel};
use crate::triangle::{triangle_hit, Triangle};
use crate::vec3::{bounded, gnormalize, gsub, gv, in_range, lemma_gnormalize_component_in_unit, GVec, Vec3};
use crate::{MAX_COORD, SCALE};

verus! {

/// Sky gradient endpoint at full blend: the sky-blue color, channel by
/// channel, as fixed-point fractions of full brightness.
pub const SKY_R: i128 = 500_000;

pub const SKY_G: i128 = 700_000;

pub const SKY_B: i128 = 1_000_000;

/// A pinhole camera: a viewpoint and the size of a projection plane that
/// sits on the z = 0 plane of world space.
pub struct Camera {
    pub viewpoint: Vec3,
    pub w: i128,
    pub h: i128,
}

impl Camera {
    pub open spec fn wf(&self) -> bool {
        in_range(self.viewpoint) && 0 < self.w <= MAX_COORD && 0 < self.h <= MAX_COORD
    }
}

/// A scene object: the closed set of shapes a ray can hit.
pub enum Object {
    Sphere(Sphere),
    Triangle(Triangle),
    Model(StlModel),
}

/// The intersection outcome of one object.
pub open spec fn object_hit(ob: Object, o: GVec, d: GVec) -> Option<HitM> {
    match ob {
        Object::Sphere(s) => sphere_hit(s, o, d),
        Object::Triangle(t) => triangle_hit(t, o, d),
        Object::Model(m) => mesh_hit(m, o, d),
    }
}

/// The fixed color of one object.
pub open spec fn object_color(ob: Object) -> Color {
    match ob {
        Object::Sphere(s) => s.color,
        Object::Triangle(t) => t.color,
        Object::Model(m) => m.color,
    }
}

impl Object {
    pub open spec fn wf(&self) -> bool {
        match self {
            Object::Sphere(s) => s.wf(),
            Object::Triangle(t) => t.wf(),
            Object::Model(m) => m.wf(),
        }
    }

    pub fn intersects(&self, r: &Ray) -> (res: Option<RayIntersection>)
        requires
            self.wf(),
            r.wf(),
        ensures
            opt_hit_matches(res, object_hit(*self, gv(r.origin), gv(r.dir))),
            hit_in_range(res),
    {
        match self {
            Object::Sphere(s) => s.intersects(r),
            Object::Triangle(t) => t.intersects(r),
            Object::Model(m) => m.intersects(r),
        }
    }

    pub fn color(&self) -> (c: Color)
        ensures
            c == object_color(*self),
    {
        match self {
            Object::Sphere(s) => s.color(),
            Object::Triangle(t) => t.color(),
            Object::Model(m) => m.color(),
        }
    }
}

/// Closest hit among the first `n` objects, earlier object winning equal
/// distances.
pub open spec fn scene_hit_upto(objs: Seq<Object>, o: GVec, d: GVec, n: int) -> Option<HitM>
    decreases n,
{
    if n <= 0 {
        None
    } else {
        closer_opt(scene_hit_upto(objs, o, d, n - 1), object_hit(objs[n - 1], o, d))
    }
}

/// The globally closest intersection across all objects of a scene.
pub open spec fn scene_hit(objs: Seq<Object>, o: GVec, d: GVec) -> Option<HitM> {
    scene_hit_upto(objs, o, d, objs.len() as int)
}

/// Every hit inside the closest-hit reduction of the first `n` objects
/// is farther than a hit `h` that beats all of them; once object `i`'s
/// own hit `h` enters the reduction it stays the winner.
proof fn lemma_closest_prefix(objs: Seq<Object>, o: GVec, d: GVec, i: int, h: HitM, n: int)
    requires
        0 <= i < objs.len(),
        object_hit(objs[i], o, d) == Some(h),
        forall|j: int|
            0 <= j < objs.len() && j != i ==> match #[trigger] object_hit(objs[j], o, d) {
                Some(h2) => h.dist < h2.dist,
                None => true,
            },
        0 <= n <= objs.len(),
    ensures
        n <= i ==> match scene_hit_upto(objs, o, d, n) {
            Some(p) => h.dist < p.dist,
            None => true,
        },
        n > i ==> scene_hit_upto(objs, o, d, n) == Some(h),
    decreases n,
{
    if n > 0 {
        lemma_closest_prefix(objs, o, d, i, h, n - 1);
    }
}

/// Closest-hit selection: when one object's intersection is strictly
/// closer than every other object's, the scene reports exactly that
/// intersection, and the traced color is that object's shaded hit.
pub proof fn lemma_closest_hit_wins(objs: Seq<Object>, o: GVec, d: GVec, i: int, h: HitM)
    requires
        0 <= i < objs.len(),
        object_hit(objs[i], o, d) == Some(h),
        forall|j: int|
            0 <= j < objs.len() && j != i ==> match #[trigger] object_hit(objs[j], o, d) {
                Some(h2) => h.dist < h2.dist,
                None => true,
            },
    ensures
        scene_hit(objs, o, d) == Some(h),
        trace_spec(objs, o, d) == shade_spec(h),
{
    lemma_closest_prefix(objs, o, d, i, h, objs.len() as int);
}

/// A scene with no objects falls back to the pure background gradient on
/// every ray.
pub proof fn lemma_empty_scene_is_background(objs: Seq<Object>, o: GVec, d: GVec)
    requires
        objs.len() == 0,
    ensures
        trace_spec(objs, o, d) == background_spec(d),
{
}

/// Blend parameter of the sky gradient: half of (normalized vertical
/// direction component + 1), in fixed-point.
pub open spec fn bg_t(d: GVec) -> int {
    tdiv(gnormalize(d).y + SCALE, 2)
}

/// The background color for a ray direction: the convex combination of
/// white and sky-blue at blend parameter `bg_t`.
pub open spec fn background_spec(d: GVec) -> (int, int, int) {
    let t = bg_t(d);
    (
        background_channel(t, SKY_R as int),
        background_channel(t, SKY_G as int),
        background_channel(t, SKY_B as int),
    )
}

/// The sky-gradient background for a ray that hits nothing.
pub fn color(r: &Ray) -> (c: Color)
    requires
        r.wf(),
    ensures
        c.r == background_spec(gv(r.dir)).0,
        c.g == background_spec(gv(r.dir)).1,
        c.b == background_spec(gv(r.dir)).2,
{
    let n = r.dir.normalize();
    let t = tdiv_i128(n.y + SCALE, 2);
    Color {
        r: background_channel_exec(t, SKY_R),
        g: background_channel_exec(t, SKY_G),
        b: background_channel_exec(t, SKY_B),
    }
}

/// The shader: each channel of the hit object's color scaled by the
/// matching normal component mapped from [-1, 1] to [0, 1].
pub open spec fn shade_spec(h: HitM) -> (int, int, int) {
    (
        shade_channel(h.color.r as int, h.norm.x),
        shade_channel(h.color.g as int, h.norm.y),
        shade_channel(h.color.b as int, h.norm.z),
    )
}

/// What one traced ray yields: the shaded closest hit, or the background.
pub open spec fn trace_spec(objs: Seq<Object>, o: GVec, d: GVec) -> (int, int, int) {
    match scene_hit(objs, o, d) {
        Some(h) => shade_spec(h),
        None => background_spec(d),
    }
}

/// A ray that hits nothing is colored by the background alone.
pub proof fn lemma_miss_is_background(objs: Seq<Object>, o: GVec, d: GVec)
    requires
        scene_hit(objs, o, d) is None,
    ensures
        trace_spec(objs, o, d) == background_spec(d),
{
}

/// The gradient's endpoints are exact: a direction normalized to
/// straight down gives pure white, one normalized to straight up gives
/// the 8-bit rounding of the sky-blue color.
pub proof fn lemma_background_endpoints(d: GVec)
    ensures
        gnormalize(d).y == -SCALE ==> background_spec(d) == (255int, 255int, 255int),
        gnormalize(d).y == SCALE ==> background_spec(d) == (128int, 179int, 255int),
{
    if gnormalize(d).y == -SCALE {
        assert(bg_t(d) == 0);
        assert(background_channel(0, SKY_R as int) == 255) by (nonlinear_arith);
        assert(background_channel(0, SKY_G as int) == 255) by (nonlinear_arith);
        assert(background_channel(0, SKY_B as int) == 255) by (nonlinear_arith);
    }
    if gnormalize(d).y == SCALE {
        assert(bg_t(d) == SCALE);
        assert(background_channel(SCALE as int, SKY_R as int) == 128) by (nonlinear_arith);
        assert(background_channel(SCALE as int, SKY_G as int) == 179) by (nonlinear_arith);
        assert(background_channel(SCALE as int, SKY_B as int) == 255) by (nonlinear_arith);
    }
}

/// Between the endpoints the gradient is monotone in the direction's
/// normalized vertical component, and every channel stays a convex
/// combination of white and sky-blue.
pub proof fn lemma_background_monotone(d1: GVec, d2: GVec)
    requires
        gnormalize(d1).y <= gnormalize(d2).y,
    ensures
        background_spec(d2).0 <= background_spec(d1).0,
        background_spec(d2).1 <= background_spec(d1).1,
        background_spec(d2).2 <= background_spec(d1).2,
        128 <= background_spec(d1).0 <= 255,
        179 <= background_spec(d1).1 <= 255,
        255 <= background_spec(d1).2 <= 255,
{
    lemma_bg_t_in_unit(d1);
    lemma_bg_t_in_unit(d2);
    lemma_tdiv_ordered(gnormalize(d1).y + SCALE, gnormalize(d2).y + SCALE, 2);
    lemma_background_channel_monotone(bg_t(d1), bg_t(d2), SKY_R as int);
    lemma_background_channel_monotone(bg_t(d1), bg_t(d2), SKY_G as int);
    lemma_background_channel_monotone(bg_t(d1), bg_t(d2), SKY_B as int);
    lemma_background_channel_convex(bg_t(d1), SKY_R as int);
    lemma_background_channel_convex(bg_t(d1), SKY_G as int);
    lemma_background_channel_convex(bg_t(d1), SKY_B as int);
    assert(background_channel(SCALE as int, SKY_R as int) == 128) by (nonlinear_arith);
    assert(background_channel(SCALE as int, SKY_G as int) == 179) by (nonlinear_arith);
    assert(background_channel(SCALE as int, SKY_B as int) == 255) by (nonlinear_arith);
    lemma_background_channel_monotone(bg_t(d1), SCALE as int, SKY_R as int);
    lemma_background_channel_monotone(bg_t(d1), SCALE as int, SKY_G as int);
    lemma_background_channel_monotone(bg_t(d1), SCALE as int, SKY_B as int);
}

/// The blend parameter sits in the unit interval, because normalized
/// vertical components sit in [-1, 1].
proof fn lemma_bg_t_in_unit(d: GVec)
    ensures
        0 <= bg_t(d) <= SCALE,
{
    lemma_gnormalize_component_in_unit(d);
}

/// The camera ray direction for pixel (x, y): the pixel's fraction of the
/// image, scaled by the projection plane's size, gives a point on the
/// z = 0 plane; the direction from the viewpoint to it is normalized.
pub open spec fn cam_dir(cam: Camera, w: int, h: int, x: int, y: int) -> GVec {
    let wx = tdiv(x * cam.w, w - 1);
    let wy = tdiv(y * cam.h, h - 1);
    gnormalize(gsub(GVec { x: wx, y: wy, z: 0 }, gv(cam.viewpoint)))
}

/// A pixel's flat index in any earlier row lies below the start of the
/// current row.
proof fn lemma_row_index_in(rows: int, w: int, r2: int, x2: int)
    by (nonlinear_arith)
    requires
        0 <= r2 < rows,
        0 <= x2 < w,
    ensures
        0 <= r2 * w + x2 < rows * w,
{
}

/// A projection-plane coordinate stays between zero and the plane's size.
proof fn lemma_plane_coord_in_unit(x: int, w: int, d: int)
    requires
        0 <= x <= d,
        0 < w,
        1 <= d,
    ensures
        0 <= tdiv(x * w, d) <= w,
{
    assert(0 <= x * w) by (nonlinear_arith)
        requires
            0 <= x,
            0 < w,
    ;
    assert(x * w <= d * w) by (nonlinear_arith)
        requires
            x <= d,
            0 < w,
    ;
    lemma_div_pos_is_pos(x * w, d);
    lemma_div_is_ordered(x * w, d * w, d);
    lemma_div_multiples_vanish(w, d);
    assert(d * w == w * d) by (nonlinear_arith);
}

/// A scene: pixel dimensions, the camera, and the objects a ray can hit.
pub struct Scene {
    pub width: u32,
    pub height: u32,
    pub camera: Camera,
    pub objs: Vec<Object>,
}

impl Scene {
    pub open spec fn wf(&self) -> bool {
        2 <= self.width && 2 <= self.height && self.camera.wf() && forall|i: int|
            0 <= i < self.objs@.len() ==> (#[trigger] self.objs@[i]).wf()
    }

    /// Maps a pixel coordinate to its world-space camera ray: pixel
    /// fractions scaled onto the projection plane at z = 0, direction
    /// normalized from the viewpoint toward that plane point.
    pub fn pixel_ray(&self, x: u32, y: u32) -> (r: Ray)
        requires
            self.wf(),
            x < self.width,
            y < self.height,
        ensures
            r.origin == self.camera.viewpoint,
            gv(r.dir) == cam_dir(
                self.camera,
                self.width as int,
                self.height as int,
                x as int,
                y as int,
            ),
            r.wf(),
    {
        proof {
            lemma_mul_bounds(x as int, self.camera.w as int, 4_294_967_295, 500_000_000);
            lemma_mul_bounds(y as int, self.camera.h as int, 4_294_967_295, 500_000_000);
            lemma_plane_coord_in_unit(x as int, self.camera.w as int, self.width as int - 1);
            lemma_plane_coord_in_unit(y as int, self.camera.h as int, self.height as int - 1);
        }
        let wx = tdiv_i128((x as i128) * self.camera.w, (self.width as i128) - 1);
        let wy = tdiv_i128((y as i128) * self.camera.h, (self.height as i128) - 1);
        let pix = Vec3 { x: wx, y: wy, z: 0 };
        let dir0 = pix.sub(&self.camera.viewpoint);
        let dir = dir0.normalize();
        Ray { origin: self.camera.viewpoint, dir }
    }

    /// The globally closest intersection for one ray, scanning every
    /// object and keeping the minimum-distance hit.
    pub fn closest_obj(&self, r: &Ray) -> (res: Option<RayIntersection>)
        requires
            self.wf(),
            r.wf(),
        ensures
            opt_hit_matches(res, scene_hit(self.objs@, gv(r.origin), gv(r.dir))),
            hit_in_range(res),
    {
        let mut best: Option<RayIntersection> = None;
        let mut i: usize = 0;
        while i < self.objs.len()
            invariant
                0 <= i <= self.objs@.len(),
                self.wf(),
                r.wf(),
                opt_hit_matches(best, scene_hit_upto(self.objs@, gv(r.origin), gv(r.dir), i as int)),
                hit_in_range(best),
            decreases self.objs@.len() - i,
        {
            let cur = self.objs[i].intersects(r);
            match cur {
                None => {},
                Some(c) => {
                    let take = match &best {
                        None => true,
                        Some(b) => c.dist < b.dist,
                    };
                    if take {
                        best = Some(c);
                    }
                },
            }
            i = i + 1;
        }
        best
    }

    /// One ray's color: the closest hit shaded by its normal, or the
    /// background gradient when nothing is hit.
    pub fn trace(&self, r: &Ray) -> (c: Color)
        requires
            self.wf(),
            r.wf(),
        ensures
            c.r == trace_spec(self.objs@, gv(r.origin), gv(r.dir)).0,
            c.g == trace_spec(self.objs@, gv(r.origin), gv(r.dir)).1,
            c.b == trace_spec(self.objs@, gv(r.origin), gv(r.dir)).2,
    {
        match self.closest_obj(r) {
            Some(inter) => Color {
                r: shade_channel_exec(inter.color.r, inter.norm.x),
                g: shade_channel_exec(inter.color.g, inter.norm.y),
                b: shade_channel_exec(inter.color.b, inter.norm.z),
            },
            None => color(r),
        }
    }

    /// Casts one ray per pixel and shades what it hits.  World
    /// coordinates put y = 0 at the bottom while the image puts row 0 at
    /// the top, so world row y lands on image row height - 1 - y.
    pub fn render(&self) -> (img: Image)
        requires
            self.wf(),
        ensures
            img.width == self.width,
            img.height == self.height,
            img.wf(),
            forall|x: int, y: int|
                0 <= x < self.width && 0 <= y < self.height ==> color_is(
                    #[trigger] img.pixels@[(self.height - 1 - y) * self.width + x],
                    pixel_spec(*self, x, y),
                ),
    {
        let mut pixels: Vec<Color> = Vec::new();
        let mut yy: u32 = self.height;
        while yy > 0
            invariant
                self.wf(),
                0 <= yy <= self.height,
                pixels@.len() == (self.height - yy) * self.width,
                forall|x2: int, y2: int|
                    0 <= x2 < self.width && yy <= y2 < self.height ==> color_is(
                        #[trigger] pixels@[(self.height - 1 - y2) * self.width + x2],
                        pixel_spec(*self, x2, y2),
                    ),
            decreases yy,
        {
            let y = yy - 1;
            let ghost row = self.height as int - 1 - y as int;
            proof {
                assert((self.height as int - yy as int) * self.width as int == row
                    * self.width as int) by (nonlinear_arith)
                    requires
                        yy == y + 1,
                        row == self.height as int - 1 - y as int,
                ;
            }
            let mut x: u32 = 0;
            while x < self.width
                invariant
                    self.wf(),
                    yy == y + 1,
                    0 <= y < self.height,
                    0 <= x <= self.width,
                    row == self.height as int - 1 - y as int,
                    pixels@.len() == row * self.width + x,
                    forall|x2: int, y2: int|
                        0 <= x2 < self.width && y < y2 < self.height ==> color_is(
                            #[trigger] pixels@[(self.height - 1 - y2) * self.width + x2],
                            pixel_spec(*self, x2, y2),
                        ),
                    forall|x2: int|
                        0 <= x2 < x ==> color_is(
                            #[trigger] pixels@[row * self.width + x2],
                            pixel_spec(*self, x2, y as int),
                        ),
                decreases self.width - x,
            {
                let r = self.pixel_ray(x, y);
                let px = self.trace(&r);
                let ghost pre = pixels@;
                pixels.push(px);
                proof {
                    assert forall|x2: int, y2: int|
                        0 <= x2 < self.width && y < y2 < self.height implies color_is(
                        #[trigger] pixels@[(self.height - 1 - y2) * self.width + x2],
                        pixel_spec(*self, x2, y2),
                    ) by {
                        lemma_row_index_in(
                            row,
                            self.width as int,
                            self.height as int - 1 - y2,
                            x2,
                        );
                        assert(pixels@[(self.height - 1 - y2) * self.width + x2] == pre[(
                        self.height - 1 - y2) * self.width + x2]);
                    }
                }
                x = x + 1;
            }
            proof {
                assert(row * self.width as int + self.width as int == (self.height as int - y
                    as int) * self.width as int) by (nonlinear_arith)
                    requires
                        row == self.height as int - 1 - y as int,
                ;
            }
            yy = y;
        }
        proof {
            assert((self.height as int - 0) * (self.width as int) == (self.width as int) * (
            self.height as int)) by (nonlinear_arith);
        }
        Image { width: self.width, height: self.height, pixels }
    }
}

/// An 8-bit pixel holds exactly the computed channel triple.
pub open spec fn color_is(c: Color, t: (int, int, int)) -> bool {
    c.r == t.0 && c.g == t.1 && c.b == t.2
}

/// What the renderer writes for world pixel (x, y), y counted up from
/// the bottom: the traced camera ray through that pixel.
pub open spec fn pixel_spec(s: Scene, x: int, y: int) -> (int, int, int) {
    trace_spec(
        s.objs@,
        gv(s.camera.viewpoint),
        cam_dir(s.camera, s.width as int, s.height as int, x, y),
    )
}

/// A raster image: row-major 8-bit RGB pixels, row 0 at the top.
pub struct Image {
    pub width: u32,
    pub height: u32,
    pub pixels: Vec<Color>,
}

impl Image {
    pub open spec fn wf(&self) -> bool {
        self.pixels@.len() == self.width as int * self.height as int
    }

    /// The pixel at column x of row y, rows counted from the top.
    pub fn pixel(&self, x: u32, y: u32) -> (c: Color)
        requires
            self.wf(),
            x < self.width,
            y < self.height,
        ensures
            c == self.pixels@[y as int * self.width as int + x as int],
    {
        let len = self.pixels.len();
        proof {
            assert(0 <= (y as int) * (self.width as int) + (x as int)
                && (y as int) * (self.width as int) + (x as int) < (self.width as int) * (self.height as int))
                by (nonlinear_arith)
                requires
                    0 <= (y as int) && (y as int) < (self.height as int),
                    0 <= (x as int) && (x as int) < (self.width as int),
            ;
        }
        self.pixels[(y as usize) * (self.width as usize) + (x as usize)]
    }
}

} // verus!
