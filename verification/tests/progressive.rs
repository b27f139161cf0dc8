use pathtracer::accum::{blend, Accum, HostEvent};
use pathtracer::camera::Camera;
use pathtracer::fx::SCALE;
use pathtracer::scene::{Scene, SkyModel};
use pathtracer::vec::{Vec3, Vec4};

fn v(x: i64, y: i64, z: i64) -> Vec3 {
    Vec3 { x, y, z }
}

fn empty_scene() -> Scene {
    Scene { spheres: vec![], materials: vec![], sky: SkyModel::Constant(v(32768, 45875, SCALE)) }
}

#[test]
fn new_state_is_zeroed_with_counter_one() {
    let a = Accum::new(3, 2);
    assert_eq!(a.consts.size.x, 3);
    assert_eq!(a.consts.size.y, 2);
    assert_eq!(a.consts.samples, 1);
    assert_eq!(a.cells.len(), 6);
    for c in &a.cells {
        assert_eq!(*c, Vec4 { x: 0, y: 0, z: 0, w: 0 });
    }
}

#[test]
fn first_sample_is_written_not_blended() {
    // Against stale cell contents, a blend at counter one is an exact write.
    let cell = Vec4 { x: 12345, y: 23456, z: 34567, w: 0 };
    let r = blend(cell, v(30000, 30000, 30000), 1);
    assert_eq!(r, Vec4 { x: 30000, y: 30000, z: 30000, w: SCALE });
}

#[test]
fn resize_resets_cells_and_counter_together() {
    // Accumulate a few frames, then resize: every cell is zero again and
    // the counter restarts at one in the same step.
    let scene = empty_scene();
    let cam = Camera::default_camera();
    let mut a = Accum::new(2, 2);
    a.render_frame(&scene, &cam);
    a.render_frame(&scene, &cam);
    assert_eq!(a.consts.samples, 3);
    a.reset_accumulation(4, 1);
    assert_eq!(a.consts.samples, 1);
    assert_eq!((a.consts.size.x, a.consts.size.y), (4, 1));
    assert_eq!(a.cells.len(), 4);
    for c in &a.cells {
        assert_eq!(*c, Vec4 { x: 0, y: 0, z: 0, w: 0 });
    }
}

#[test]
fn first_frame_after_reset_equals_the_sample() {
    // On an all-miss scene every pixel's first sample is the sky, and at
    // counter one it lands in the cell exactly, with no contamination from
    // whatever was accumulated before the resize.
    let scene = empty_scene();
    let cam = Camera::default_camera();
    let mut a = Accum::new(5, 3);
    a.render_frame(&scene, &cam);
    a.render_frame(&scene, &cam);
    a.reset_accumulation(2, 2);
    a.render_frame(&scene, &cam);
    assert_eq!(a.consts.samples, 2);
    for c in &a.cells {
        assert_eq!(*c, Vec4 { x: 32768, y: 45875, z: SCALE, w: SCALE });
    }
}

#[test]
fn counter_grows_by_one_per_frame() {
    let scene = empty_scene();
    let cam = Camera::default_camera();
    let mut a = Accum::new(1, 1);
    for n in 1..10u32 {
        assert_eq!(a.consts.samples, n);
        a.render_frame(&scene, &cam);
    }
}

#[test]
fn host_events_drive_the_two_operations() {
    let scene = empty_scene();
    let cam = Camera::default_camera();
    let mut a = Accum::new(1, 1);
    a.step(&scene, &cam, HostEvent::RedrawRequested);
    assert_eq!(a.consts.samples, 2);
    a.step(&scene, &cam, HostEvent::Resized(3, 3));
    assert_eq!(a.consts.samples, 1);
    assert_eq!(a.cells.len(), 9);
    a.step(&scene, &cam, HostEvent::RedrawRequested);
    assert_eq!(a.consts.samples, 2);
}

#[test]
fn zero_sized_target_is_harmless() {
    let scene = empty_scene();
    let cam = Camera::default_camera();
    let mut a = Accum::new(0, 7);
    assert_eq!(a.cells.len(), 0);
    a.render_frame(&scene, &cam);
    assert_eq!(a.consts.samples, 2);
    assert_eq!(a.cells.len(), 0);
}

#[test]
fn accumulation_settles_on_a_constant_sample() {
    // Blending the same color a hundred times keeps the estimate within
    // truncation drift of that color; the first write is exact.
    let target = v(30000, 31000, 32000);
    let mut cell = Vec4 { x: 0, y: 0, z: 0, w: 0 };
    for n in 1..=100u32 {
        cell = blend(cell, target, n);
        if n == 1 {
            assert_eq!((cell.x, cell.y, cell.z), (30000, 31000, 32000));
        }
        assert!((cell.x - target.x).abs() <= 56);
        assert!((cell.y - target.y).abs() <= 56);
        assert!((cell.z - target.z).abs() <= 56);
    }
}

#[test]
fn accumulation_converges_toward_the_mean_of_alternating_samples() {
    // Alternating black and double-bright frames: the running average heads
    // for the midpoint and stays near it.
    let mut cell = Vec4 { x: 0, y: 0, z: 0, w: 0 };
    for n in 1..=64u32 {
        let c = if n % 2 == 1 { v(0, 0, 0) } else { v(131072, 131072, 131072) };
        cell = blend(cell, c, n);
    }
    assert_eq!((cell.x, cell.y, cell.z), (65524, 65524, 65524));
    assert!((cell.x - SCALE).abs() <= 16);
}
