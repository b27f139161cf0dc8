use pathtracer::fx::SCALE;
use pathtracer::geom::{Ray, Sphere};
use pathtracer::scene::{Material, Scene, SkyModel};
use pathtracer::vec::Vec3;

fn v(x: i64, y: i64, z: i64) -> Vec3 {
    Vec3 { x, y, z }
}

fn unit_sphere_at_origin() -> Sphere {
    Sphere { pos: v(0, 0, 0), radius: SCALE, mat: 0 }
}

#[test]
fn frontal_hit_distance_and_normal() {
    // A sphere of radius one at the origin, a ray from (0, 0, 5) toward
    // (0, 0, -1): the nearest hit is at distance four, normal (0, 0, 1).
    let s = unit_sphere_at_origin();
    let ray = Ray { origin: v(0, 0, 5 * SCALE), dir: v(0, 0, -SCALE) };
    let h = s.hit(&ray, 66, i64::MAX);
    assert_eq!(h.distance, 4 * SCALE);
    assert_eq!((h.pos.x, h.pos.y, h.pos.z), (0, 0, SCALE));
    assert_eq!((h.normal.x, h.normal.y, h.normal.z), (0, 0, SCALE));
    assert_eq!(h.mat, 0);
}

#[test]
fn ray_through_center_always_hits() {
    // Rays aimed through the center from various outside points never miss.
    let s = unit_sphere_at_origin();
    let origins = [v(0, 0, 5 * SCALE), v(3 * SCALE, 4 * SCALE, 0), v(-2 * SCALE, SCALE, 2 * SCALE)];
    for o in origins {
        let dir = v(-o.x, -o.y, -o.z);
        let ray = Ray { origin: o, dir };
        let h = s.hit(&ray, 66, i64::MAX);
        assert!(h.distance > 0);
    }
}

#[test]
fn origin_inside_falls_back_to_far_root() {
    // From the center the nearer root is negative, below t_min: the hit
    // must come from the farther root, one radius along the ray.
    let s = unit_sphere_at_origin();
    let ray = Ray { origin: v(0, 0, 0), dir: v(0, 0, -SCALE) };
    let h = s.hit(&ray, 66, i64::MAX);
    assert_eq!(h.distance, SCALE);
    assert_eq!((h.normal.x, h.normal.y, h.normal.z), (0, 0, -SCALE));
}

#[test]
fn near_root_below_t_min_takes_far_root() {
    // t_min above the nearer root (4.0) but below the farther (6.0).
    let s = unit_sphere_at_origin();
    let ray = Ray { origin: v(0, 0, 5 * SCALE), dir: v(0, 0, -SCALE) };
    let h = s.hit(&ray, 300000, i64::MAX);
    assert_eq!(h.distance, 6 * SCALE);
}

#[test]
fn both_roots_outside_interval_is_no_hit() {
    let s = unit_sphere_at_origin();
    let ray = Ray { origin: v(0, 0, 5 * SCALE), dir: v(0, 0, -SCALE) };
    // Interval ends before the nearer root.
    let h = s.hit(&ray, 66, 100000);
    assert_eq!(h.distance, 0);
    // Interval starts after the farther root.
    let h = s.hit(&ray, 7 * SCALE, i64::MAX);
    assert_eq!(h.distance, 0);
}

#[test]
fn miss_is_no_hit() {
    let s = unit_sphere_at_origin();
    let ray = Ray { origin: v(0, 0, 5 * SCALE), dir: v(0, 0, SCALE) };
    let h = s.hit(&ray, 66, i64::MAX);
    assert_eq!(h.distance, 0);
}

#[test]
fn degenerate_direction_is_no_hit() {
    let s = unit_sphere_at_origin();
    let ray = Ray { origin: v(0, 0, 5 * SCALE), dir: v(0, 0, 0) };
    let h = s.hit(&ray, 66, i64::MAX);
    assert_eq!(h.distance, 0);
}

#[test]
fn nearest_sphere_wins() {
    // Two spheres along -z; the nearer one is reported, whatever the order.
    let near = Sphere { pos: v(0, 0, -2 * SCALE), radius: SCALE, mat: 1 };
    let far = Sphere { pos: v(0, 0, -6 * SCALE), radius: SCALE, mat: 2 };
    let mats = vec![
        Material { albedo: v(0, 0, 0), kind: 0 },
        Material { albedo: v(0, 0, 0), kind: 0 },
        Material { albedo: v(0, 0, 0), kind: 0 },
    ];
    let ray = Ray { origin: v(0, 0, 0), dir: v(0, 0, -SCALE) };
    for spheres in [vec![near, far], vec![far, near]] {
        let scene = Scene { spheres, materials: mats.clone(), sky: SkyModel::Constant(v(0, 0, 0)) };
        let h = scene.closest_hit(&ray, 66);
        assert_eq!(h.distance, SCALE);
        assert_eq!(h.mat, 1);
    }
}

#[test]
fn empty_scene_reports_far_sentinel() {
    let scene = Scene { spheres: vec![], materials: vec![], sky: SkyModel::Constant(v(0, 0, 0)) };
    let ray = Ray { origin: v(0, 0, 0), dir: v(0, 0, -SCALE) };
    let h = scene.closest_hit(&ray, 66);
    assert_eq!(h.distance, i64::MAX);
}
