use pathtracer::display::{quad_v, test_f, unreal_tonemap};
use pathtracer::fx::{fx_cbrt, fx_div, fx_mul, fx_sqrt, SCALE};
use pathtracer::scene::{Scene, KIND_DIFFUSE, KIND_MIRROR};
use pathtracer::shade::{ggx_distribution, orthonormal_basis, reflect, sample_equirect, schlick,
    smith_vis, uniform_pdf};
use pathtracer::trig::{acos_half, atan2_turn, cos_turn, sin_turn};
use pathtracer::uniform::{cast, Consts, UVec2};
use pathtracer::vec::{Vec3, Vec4};

fn v(x: i64, y: i64, z: i64) -> Vec3 {
    Vec3 { x, y, z }
}

fn v4(x: i64, y: i64, z: i64, w: i64) -> Vec4 {
    Vec4 { x, y, z, w }
}

#[test]
fn uniform_record_bytes() {
    let c = Consts { size: UVec2 { x: 800, y: 600 }, samples: 7 };
    let bytes = cast(&c);
    assert_eq!(
        bytes,
        vec![0x20, 0x03, 0, 0, 0x58, 0x02, 0, 0, 7, 0, 0, 0, 0, 0, 0, 0]
    );
    let c = Consts::default();
    assert_eq!(cast(&c), vec![0u8; 16]);
}

#[test]
fn fixed_point_roots() {
    assert_eq!(fx_sqrt(SCALE), SCALE); // sqrt(1) == 1
    assert_eq!(fx_sqrt(4 * SCALE), 2 * SCALE);
    assert_eq!(fx_sqrt(2 * SCALE), 92681); // sqrt(2) ~ 1.41421
    assert_eq!(fx_sqrt(-5), 0);
    assert_eq!(fx_cbrt(8 * SCALE), 2 * SCALE);
    assert_eq!(fx_cbrt(SCALE), SCALE);
    assert_eq!(fx_cbrt(0), 0);
}

#[test]
fn fixed_point_division_is_total() {
    assert_eq!(fx_div(SCALE, 2 * SCALE), SCALE / 2);
    assert_eq!(fx_div(SCALE, 0), i64::MAX);
    assert_eq!(fx_div(-SCALE, 0), i64::MIN);
    assert_eq!(fx_div(0, 0), 0);
    assert_eq!(fx_mul(3 * SCALE, 2 * SCALE), 6 * SCALE);
}

#[test]
fn arithmetic_saturates_instead_of_wrapping() {
    assert_eq!(fx_mul(i64::MAX, 2 * SCALE), i64::MAX);
    assert_eq!(fx_mul(i64::MIN, 2 * SCALE), i64::MIN);
    assert_eq!(fx_mul(i64::MAX, -2 * SCALE), i64::MIN);
    assert_eq!(fx_div(i64::MAX, 1), i64::MAX);
}

#[test]
fn circular_functions_fold_past_one_turn() {
    // Periodicity of the reduction: a turn and a quarter lands on a quarter.
    assert_eq!(cos_turn(SCALE + 16384), cos_turn(16384));
    assert_eq!(cos_turn(2 * SCALE), cos_turn(SCALE));
    assert_eq!(cos_turn(-SCALE - 8192), cos_turn(8192));
}

#[test]
fn circular_functions() {
    assert_eq!(cos_turn(0), SCALE);
    assert_eq!(cos_turn(32768), -SCALE); // half a turn
    assert_eq!(cos_turn(-32768), -SCALE);
    assert_eq!(cos_turn(16384), -58); // quarter turn: zero up to series error
    assert_eq!(sin_turn(16384), SCALE);
    assert_eq!(sin_turn(-16384), -SCALE);
    // An eighth of a turn: cos == sin == sqrt(1/2).
    assert_eq!(cos_turn(8192), 46341);
    assert_eq!(sin_turn(8192), 46341);
}

#[test]
fn arc_functions_on_the_axes() {
    // atan2 in turns: the four axes land on the exact quarter turns.
    assert_eq!(atan2_turn(0, SCALE), 0);
    assert_eq!(atan2_turn(SCALE, 0), 16384);
    assert_eq!(atan2_turn(0, -SCALE), 32768);
    assert_eq!(atan2_turn(-SCALE, 0), -16384);
    // The diagonal is an exact eighth of a turn (both endpoints of the
    // octant approximation are exact).
    assert_eq!(atan2_turn(SCALE, SCALE), 8192);
    assert_eq!(atan2_turn(0, 0), 0);
    // acos as a fraction of half a turn.
    assert_eq!(acos_half(SCALE), 0);
    assert_eq!(acos_half(-SCALE), SCALE);
    assert_eq!(acos_half(0), SCALE / 2);
    assert_eq!(acos_half(32768), 21870); // acos(1/2)/pi ~ 1/3
}

#[test]
fn equirect_maps_the_axes() {
    // (atan2(z, x) + pi) / (2 pi) and acos(y) / pi, each on [0, 1].
    assert_eq!(sample_equirect(v(SCALE, 0, 0)), (32768, 32768));
    assert_eq!(sample_equirect(v(-SCALE, 0, 0)), (SCALE, 32768));
    assert_eq!(sample_equirect(v(0, 0, SCALE)), (49152, 32768));
    assert_eq!(sample_equirect(v(0, 0, -SCALE)), (16384, 32768));
    assert_eq!(sample_equirect(v(0, SCALE, 0)), (32768, 0));
    assert_eq!(sample_equirect(v(0, -SCALE, 0)), (32768, SCALE));
}

#[test]
fn full_screen_triangle_vertices() {
    assert_eq!(quad_v(0), v4(-SCALE, -SCALE, 0, SCALE));
    assert_eq!(quad_v(1), v4(3 * SCALE, -SCALE, 0, SCALE));
    assert_eq!(quad_v(2), v4(-SCALE, 3 * SCALE, 0, SCALE));
}

#[test]
fn tonemap_values() {
    let t = unreal_tonemap(v(SCALE, 32768, 0));
    assert_eq!((t.x, t.y, t.z), (57818, 50977, 0));
    let p = test_f(v4(SCALE, SCALE, SCALE, 12345));
    assert_eq!(p, v4(57818, 57818, 57818, SCALE));
}

#[test]
fn specular_helpers() {
    // cos 0.5, relative index 1.5.
    assert_eq!(schlick(32768, 98304), 4587);
    // nh 0.9, roughness 0.5.
    assert_eq!(ggx_distribution(58982, 32768), 33850);
    assert_eq!(smith_vis(58982, 45875, 32768), 22915);
    assert_eq!(uniform_pdf(), 10430); // 1 / (2 pi)
}

#[test]
fn reflect_flips_the_normal_component() {
    let d = v(0, 0, -SCALE);
    let n = v(0, 0, SCALE);
    assert_eq!(reflect(d, n), v(0, 0, SCALE));
    let d = v(SCALE, -SCALE, 0);
    let n = v(0, SCALE, 0);
    assert_eq!(reflect(d, n), v(SCALE, SCALE, 0));
}

#[test]
fn orthonormal_basis_of_z_axis() {
    let (t, b) = orthonormal_basis(&v(0, 0, SCALE));
    assert_eq!(t, v(SCALE, 0, 0));
    assert_eq!(b, v(0, SCALE, 0));
}

#[test]
fn scene_from_packed_accepts_a_valid_scene() {
    let spheres = vec![
        v4(0, -101 * SCALE, -2 * SCALE, 100 * SCALE),
        v4(0, 0, 0, 0),
        v4(0, 0, -2 * SCALE, SCALE),
        v4(0, 0, 0, 0),
    ];
    let materials = vec![v4(32768, 32768, 32768, 0)];
    let scene = Scene::from_packed(spheres, materials, v(32768, 45875, SCALE)).unwrap();
    assert_eq!(scene.spheres.len(), 2);
    assert_eq!(scene.spheres[0].radius, 100 * SCALE);
    assert_eq!(scene.spheres[1].pos, v(0, 0, -2 * SCALE));
    assert_eq!(scene.spheres[1].mat, 0);
    assert_eq!(scene.materials.len(), 1);
    assert_eq!(scene.materials[0].kind, KIND_DIFFUSE);
}

#[test]
fn scene_from_packed_parses_material_kinds() {
    let spheres = vec![v4(0, 0, -2 * SCALE, SCALE), v4(SCALE, 0, 0, 0)];
    let materials = vec![v4(0, 0, 0, 0), v4(32768, 32768, 32768, SCALE)];
    let scene = Scene::from_packed(spheres, materials, v(0, 0, 0)).unwrap();
    assert_eq!(scene.spheres[0].mat, 1);
    assert_eq!(scene.materials[1].kind, KIND_MIRROR);
}

#[test]
fn scene_rejects_degenerate_radius() {
    let spheres = vec![v4(0, 0, -2 * SCALE, 0), v4(0, 0, 0, 0)];
    let materials = vec![v4(32768, 32768, 32768, 0)];
    assert!(Scene::from_packed(spheres, materials, v(0, 0, 0)).is_none());
}

#[test]
fn scene_rejects_dangling_material_index() {
    let spheres = vec![v4(0, 0, -2 * SCALE, SCALE), v4(5 * SCALE, 0, 0, 0)];
    let materials = vec![v4(32768, 32768, 32768, 0)];
    assert!(Scene::from_packed(spheres, materials, v(0, 0, 0)).is_none());
}

#[test]
fn scene_rejects_unpaired_entries() {
    let spheres = vec![v4(0, 0, -2 * SCALE, SCALE)];
    let materials = vec![v4(32768, 32768, 32768, 0)];
    assert!(Scene::from_packed(spheres, materials, v(0, 0, 0)).is_none());
}

#[test]
fn scene_rejects_out_of_range_coordinates() {
    let spheres = vec![v4(i64::MAX, 0, 0, SCALE), v4(0, 0, 0, 0)];
    let materials = vec![v4(32768, 32768, 32768, 0)];
    assert!(Scene::from_packed(spheres, materials, v(0, 0, 0)).is_none());
}
