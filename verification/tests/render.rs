use raytrace::color::Color;
use raytrace::math::{isqrt, tdiv_i128, tdiv_s_i128};
use raytrace::ray::Ray;
use raytrace::scene::{color, Camera, Object, Scene};
use raytrace::sphere::Sphere;
use raytrace::stl_model::StlModel;
use raytrace::triangle::Triangle;
use raytrace::vec3::Vec3;

const M: i128 = 1_000_000;

fn v(x: i128, y: i128, z: i128) -> Vec3 {
    Vec3 { x, y, z }
}

fn red() -> Color {
    Color { r: 255, g: 0, b: 0 }
}

fn blue() -> Color {
    Color { r: 0, g: 0, b: 255 }
}

#[test]
fn math_helpers() {
    assert_eq!(isqrt(0), 0);
    assert_eq!(isqrt(15), 3);
    assert_eq!(isqrt(16), 4);
    assert_eq!(tdiv_i128(-7, 2), -3);
    assert_eq!(tdiv_i128(7, 2), 3);
    assert_eq!(tdiv_s_i128(7, -2), -3);
    assert_eq!(tdiv_s_i128(-7, -2), 3);
}

#[test]
fn sphere_hit_through_center() {
    let s = Sphere { center: v(0, 0, -5 * M), radius: M, color: red() };
    let r = Ray::new(v(0, 0, 0), v(0, 0, -M));
    let i = s.intersects(&r).expect("ray through center must hit");
    assert_eq!(i.dist, 4 * M);
    assert_eq!(i.point, v(0, 0, -4 * M));
    // The normal is unit length, parallel to (point - center).
    assert_eq!(i.norm, v(0, 0, M));
    assert_eq!(i.color, red());
}

#[test]
fn sphere_behind_origin_keeps_far_root() {
    // The root selection falls back to the larger root unconditionally,
    // so a sphere entirely behind the ray origin still reports a hit
    // whose distance is the root's magnitude.
    let s = Sphere { center: v(0, 0, -5 * M), radius: M, color: red() };
    let r = Ray::new(v(0, 0, 0), v(0, 0, M));
    let i = s.intersects(&r).expect("line still crosses the sphere");
    assert_eq!(i.dist, 4 * M);
    assert_eq!(i.point, v(0, 0, -4 * M));
}

#[test]
fn sphere_far_off_axis_misses() {
    let s = Sphere { center: v(20 * M, 0, -5 * M), radius: M, color: red() };
    let r = Ray::new(v(0, 0, 0), v(0, 0, -M));
    assert!(s.intersects(&r).is_none());
}

#[test]
fn triangle_centroid_ray_hits_at_third() {
    let t = Triangle::new(v(-3 * M, -3 * M, -2 * M), v(3 * M, -3 * M, -2 * M), v(0, 3 * M, -2 * M), red(), true);
    assert_eq!(t.norm, v(0, 0, 36 * M));
    // Direction (V0 + V1 + V2) - 3 O points at the centroid; the hit's
    // ray parameter is exactly one third, with barycentric weights 1/3.
    let d = v(0, -3 * M, -6 * M);
    let r = Ray::new(v(0, 0, 0), d);
    let i = t.intersects(&r).expect("centroid ray must hit");
    assert_eq!(i.dist, 333_333);
    assert_eq!(i.norm, v(0, 0, 36 * M));
    assert_eq!(i.color, red());
}

#[test]
fn triangle_parallel_ray_misses() {
    let t = Triangle::new(v(-3 * M, -3 * M, -2 * M), v(3 * M, -3 * M, -2 * M), v(0, 3 * M, -2 * M), red(), true);
    let r = Ray::new(v(0, 0, 0), v(M, 0, 0));
    assert!(t.intersects(&r).is_none());
}

#[test]
fn triangle_outside_edge_misses() {
    let t = Triangle::new(v(-3 * M, -3 * M, -2 * M), v(3 * M, -3 * M, -2 * M), v(0, 3 * M, -2 * M), red(), true);
    let r = Ray::new(v(0, 0, 0), v(20 * M, 0, -2 * M));
    assert!(t.intersects(&r).is_none());
}

#[test]
fn triangle_winding_flips_normal() {
    let a = Triangle::new(v(-3 * M, -3 * M, -2 * M), v(3 * M, -3 * M, -2 * M), v(0, 3 * M, -2 * M), red(), true);
    let b = Triangle::new(v(-3 * M, -3 * M, -2 * M), v(3 * M, -3 * M, -2 * M), v(0, 3 * M, -2 * M), red(), false);
    assert_eq!(a.norm, v(0, 0, 36 * M));
    assert_eq!(b.norm, v(0, 0, -36 * M));
}

#[test]
fn mesh_keeps_nearest_triangle() {
    let faces = vec![
        (v(-9 * M, -9 * M, -4 * M), v(9 * M, -9 * M, -4 * M), v(0, 9 * M, -4 * M)),
        (v(-3 * M, -3 * M, -2 * M), v(3 * M, -3 * M, -2 * M), v(0, 3 * M, -2 * M)),
    ];
    let m = StlModel::new(&faces, blue());
    assert_eq!(m.triangles.len(), 2);
    let r = Ray::new(v(0, 0, 0), v(0, 0, -M));
    let i = m.intersects(&r).expect("both triangles sit in front");
    assert_eq!(i.dist, 2 * M);
    assert_eq!(i.color, blue());
}

#[test]
fn closest_of_two_overlapping_spheres_wins() {
    let near = Sphere { center: v(0, 0, -5 * M), radius: M, color: red() };
    let far = Sphere { center: v(0, 0, -10 * M), radius: M, color: blue() };
    let s = Scene {
        width: 2,
        height: 2,
        camera: Camera { viewpoint: v(0, 0, 0), w: M, h: M },
        objs: vec![Object::Sphere(far), Object::Sphere(near)],
    };
    let r = Ray::new(v(0, 0, 0), v(0, 0, -M));
    let i = s.closest_obj(&r).expect("both spheres are hit");
    assert_eq!(i.dist, 4 * M);
    assert_eq!(i.color, red());
    // Shading the red sphere's hit: normal (0, 0, 1) leaves red at
    // 255 * 0.5 = 127.5, rounded to 128; green and blue are zero.
    let c = s.trace(&r);
    assert_eq!((c.r, c.g, c.b), (128, 0, 0));
}

#[test]
fn background_endpoints_and_midpoint() {
    // Straight up: the sky-blue endpoint, rounded to 8 bits.
    let up = color(&Ray::new(v(0, 0, 0), v(0, 7 * M, 0)));
    assert_eq!((up.r, up.g, up.b), (128, 179, 255));
    // Straight down: pure white.
    let down = color(&Ray::new(v(0, 0, 0), v(0, -3 * M, 0)));
    assert_eq!((down.r, down.g, down.b), (255, 255, 255));
    // Horizontal: the even blend of white and sky-blue.
    let mid = color(&Ray::new(v(0, 0, 0), v(M, 0, 0)));
    assert_eq!((mid.r, mid.g, mid.b), (191, 217, 255));
    assert!(up.r <= mid.r && mid.r <= down.r);
    assert!(up.g <= mid.g && mid.g <= down.g);
}

#[test]
fn empty_scene_renders_pure_background() {
    let s = Scene {
        width: 4,
        height: 3,
        camera: Camera { viewpoint: v(4 * M, 3 * M, 6 * M), w: 8 * M, h: 6 * M },
        objs: vec![],
    };
    let img = s.render();
    assert_eq!(img.width, 4);
    assert_eq!(img.height, 3);
    for y in 0..3u32 {
        for x in 0..4u32 {
            let got = img.pixel(x, 3 - 1 - y);
            let want = color(&s.pixel_ray(x, y));
            assert_eq!(got, want);
        }
    }
}

#[test]
fn single_sphere_scene_scenario() {
    let s = Scene {
        width: 640,
        height: 480,
        camera: Camera { viewpoint: v(4 * M, 3 * M, 6 * M), w: 8 * M, h: 6 * M },
        objs: vec![Object::Sphere(Sphere { center: v(6 * M, 4 * M, -3 * M), radius: 2 * M, color: red() })],
    };
    let img = s.render();
    // Bottom-left pixel of the image is world row 0, written with the
    // vertical flip; it shows the plain background there.
    let corner = img.pixel(0, 479);
    let bg = color(&s.pixel_ray(0, 0));
    assert_eq!(corner, bg);
    // The pixel nearest the sphere's projected center: the line from the
    // viewpoint through the center crosses the projection plane at
    // (16/3, 11/3, 0), which is pixel (426, 293) in world rows.
    let px = img.pixel(426, 480 - 1 - 293);
    assert_eq!(px.g, 0);
    assert_eq!(px.b, 0);
    assert!(px.r > 0);
    assert_ne!(px, color(&s.pixel_ray(426, 293)));
}
