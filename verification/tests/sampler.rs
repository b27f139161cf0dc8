use pathtracer::rng::Rng;
use pathtracer::fx::SCALE;

#[test]
fn u32_stream_from_zero() {
    let mut r = Rng(0);
    assert_eq!(r.u32(), 129708002);
    assert_eq!(r.u32(), 582399676);
    assert_eq!(r.u32(), 1006035121);
    assert_eq!(r.u32(), 1462727737);
}

#[test]
fn u32_stream_from_one() {
    let mut r = Rng(1);
    assert_eq!(r.u32(), 2831084092);
    assert_eq!(r.u32(), 645514520);
    assert_eq!(r.u32(), 2544563910);
    assert_eq!(r.u32(), 710022002);
}

#[test]
fn stream_is_deterministic() {
    let mut a = Rng(0xdeadbeef);
    let mut b = Rng(0xdeadbeef);
    for _ in 0..100 {
        assert_eq!(a.u32(), b.u32());
        assert_eq!(a.0, b.0);
    }
}

#[test]
fn unit_draws() {
    let mut r = Rng(0);
    assert_eq!(r.unit_pos(), 1979);
    let mut r = Rng(0);
    assert_eq!(r.unit_signed(), -61578);
    let mut r = Rng(1);
    assert_eq!(r.unit_pos(), 43198);
    let mut r = Rng(1);
    assert_eq!(r.unit_signed(), 20860);
}

#[test]
fn unit_draws_in_range() {
    let mut r = Rng(12345);
    for _ in 0..200 {
        let p = r.unit_pos();
        assert!(0 <= p && p <= SCALE);
    }
    let mut r = Rng(54321);
    for _ in 0..200 {
        let s = r.unit_signed();
        assert!(-SCALE <= s && s <= SCALE);
    }
}

#[test]
fn vec2_matches_two_signed_draws() {
    let mut a = Rng(77);
    let (x, y) = a.vec2();
    let mut b = Rng(77);
    assert_eq!(x, b.unit_signed());
    assert_eq!(y, b.unit_signed());
    assert_eq!(a.0, b.0);
}

#[test]
fn vec3_matches_three_signed_draws() {
    let mut a = Rng(99);
    let v = a.vec3();
    let mut b = Rng(99);
    assert_eq!(v.x, b.unit_signed());
    assert_eq!(v.y, b.unit_signed());
    assert_eq!(v.z, b.unit_signed());
    assert_eq!(a.0, b.0);
}

#[test]
fn vec3_sphere_golden() {
    let mut r = Rng(0);
    let v = r.vec3_sphere();
    assert_eq!((v.x, v.y, v.z), (27163, 5207, -29442));
    assert_eq!(r.0, 568162667);
}
