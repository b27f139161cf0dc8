use pathtracer::accum::render_pixel;
use pathtracer::camera::{primary_ray, Camera, DEFAULT_HALF_FOV_TAN};
use pathtracer::env::EnvMap;
use pathtracer::fx::SCALE;
use pathtracer::geom::{Ray, Sphere};
use pathtracer::rng::Rng;
use pathtracer::scene::{Material, Scene, SkyModel, KIND_DIFFUSE, KIND_MIRROR};
use pathtracer::trace::trace;
use pathtracer::vec::Vec3;

fn v(x: i64, y: i64, z: i64) -> Vec3 {
    Vec3 { x, y, z }
}

fn sky() -> Vec3 {
    // (0.5, 0.7, 1.0) in fixed point.
    v(32768, 45875, SCALE)
}

/// The scene the host builds: a ground sphere of radius 100 at (0,-101,-2)
/// and a unit sphere at (0,0,-2), both gray diffuse.
fn default_scene() -> Scene {
    Scene {
        spheres: vec![
            Sphere { pos: v(0, -101 * SCALE, -2 * SCALE), radius: 100 * SCALE, mat: 0 },
            Sphere { pos: v(0, 0, -2 * SCALE), radius: SCALE, mat: 0 },
        ],
        materials: vec![Material { albedo: v(32768, 32768, 32768), kind: KIND_DIFFUSE }],
        sky: SkyModel::Constant(sky()),
    }
}

#[test]
fn miss_returns_sky_exactly() {
    // A ray that hits nothing multiplies unit throughput by the sky color:
    // the result is the sky color, bit for bit, with no material term.
    let scene = default_scene();
    let mut rng = Rng(7);
    let c = trace(&scene, Ray { origin: v(0, 0, 0), dir: v(0, 0, SCALE) }, &mut rng);
    assert_eq!((c.x, c.y, c.z), (32768, 45875, SCALE));
    // The miss consumed no draw.
    assert_eq!(rng.0, 7);
}

#[test]
fn empty_scene_returns_sky() {
    let scene = Scene { spheres: vec![], materials: vec![], sky: SkyModel::Constant(sky()) };
    let mut rng = Rng(0);
    let c = trace(&scene, Ray { origin: v(0, 0, 0), dir: v(0, 0, -SCALE) }, &mut rng);
    assert_eq!((c.x, c.y, c.z), (32768, 45875, SCALE));
}

#[test]
fn diffuse_trace_golden() {
    let scene = default_scene();
    let mut rng = Rng(1);
    let c = trace(&scene, Ray { origin: v(0, 0, 0), dir: v(0, 0, -SCALE) }, &mut rng);
    assert_eq!((c.x, c.y, c.z), (13301, 18622, 26603));
}

#[test]
fn mirror_enclosure_terminates_at_bounce_cap() {
    // The camera sits inside a mirror sphere: every bounce hits again, so
    // only the bounce cap ends the path. Sixteen halvings of the unit
    // throughput leave exactly one unit per channel.
    let scene = Scene {
        spheres: vec![Sphere { pos: v(0, 0, 0), radius: 2 * SCALE, mat: 0 }],
        materials: vec![Material { albedo: v(32768, 32768, 32768), kind: KIND_MIRROR }],
        sky: SkyModel::Constant(sky()),
    };
    let mut rng = Rng(0);
    let c = trace(&scene, Ray { origin: v(0, 0, 0), dir: v(0, 0, -SCALE) }, &mut rng);
    assert_eq!((c.x, c.y, c.z), (1, 1, 1));
    // Mirrors draw nothing from the sampler.
    assert_eq!(rng.0, 0);
}

#[test]
fn absorbing_material_keeps_throughput() {
    // An unrecognized material kind terminates with the throughput as-is:
    // the first hit absorbs the unit throughput.
    let scene = Scene {
        spheres: vec![Sphere { pos: v(0, 0, -2 * SCALE), radius: SCALE, mat: 0 }],
        materials: vec![Material { albedo: v(32768, 32768, 32768), kind: 9 }],
        sky: SkyModel::Constant(sky()),
    };
    let mut rng = Rng(3);
    let c = trace(&scene, Ray { origin: v(0, 0, 0), dir: v(0, 0, -SCALE) }, &mut rng);
    assert_eq!((c.x, c.y, c.z), (SCALE, SCALE, SCALE));
    assert_eq!(rng.0, 3);
}

#[test]
fn miss_against_single_texel_environment_returns_the_texel() {
    // With every corner of the bilinear footprint the same texel, the
    // filtered sample is that texel exactly, whatever the direction.
    let scene = Scene {
        spheres: vec![],
        materials: vec![],
        sky: SkyModel::Image(EnvMap { width: 1, height: 1, texels: vec![v(100, 200, 300)] }),
    };
    let mut rng = Rng(0);
    let c = trace(&scene, Ray { origin: v(0, 0, 0), dir: v(12345, -33333, 4444) }, &mut rng);
    assert_eq!((c.x, c.y, c.z), (100, 200, 300));
}

#[test]
fn environment_sample_blends_bilinearly() {
    let map = EnvMap {
        width: 2,
        height: 2,
        texels: vec![v(SCALE, 0, 0), v(0, SCALE, 0), v(0, 0, SCALE), v(SCALE, SCALE, 0)],
    };
    // The equator blends both rows; the poles take one row.
    assert_eq!(map.sample(v(0, 0, -SCALE)), v(32768, 0, 32768));
    assert_eq!(map.sample(v(SCALE, 0, 0)), v(32768, 32768, 16384));
    assert_eq!(map.sample(v(0, SCALE, 0)), v(32768, 32768, 0));
    assert_eq!(map.sample(v(0, -SCALE, 0)), v(32768, 32768, 32768));
    assert_eq!(map.sample(v(38000, 20000, -50000)), v(40333, 13572, 15743));
}

#[test]
fn render_pixel_golden() {
    let scene = default_scene();
    let cam = Camera { pos: v(0, 0, 0), half_fov_tan: DEFAULT_HALF_FOV_TAN };
    let c = render_pixel(&scene, &cam, 3, 4, 8, 8, 1);
    assert_eq!((c.x, c.y, c.z), (2074, 2903, 4148));
    let c = render_pixel(&scene, &cam, 0, 0, 8, 8, 1);
    assert_eq!((c.x, c.y, c.z), (32768, 45875, SCALE));
    let c = render_pixel(&scene, &cam, 3, 4, 8, 8, 2);
    assert_eq!((c.x, c.y, c.z), (6099, 8539, 12199));
}

#[test]
fn render_pixel_is_deterministic() {
    // Same pixel, counter, size and scene: the same color, bit for bit.
    let scene = default_scene();
    let cam = Camera::default_camera();
    for (px, py, n) in [(0u32, 0u32, 1u32), (5, 2, 3), (7, 7, 100)] {
        let a = render_pixel(&scene, &cam, px, py, 8, 8, n);
        let b = render_pixel(&scene, &cam, px, py, 8, 8, n);
        assert_eq!(a, b);
    }
}

#[test]
fn primary_ray_is_normalized_and_forward() {
    let cam = Camera::default_camera();
    let mut rng = Rng(42);
    let r = primary_ray(&cam, 4, 4, 8, 8, &mut rng);
    assert_eq!(r.origin, v(0, 0, 0));
    // The camera looks down negative Z.
    assert!(r.dir.z < 0);
    // Unit length within fixed-point rounding.
    let len2 = r.dir.length_squared();
    assert!((len2 - SCALE).abs() <= 8, "length_squared {}", len2);
}
