//! The accumulation buffer and the host-side progressive state machine.
//!
//! One cell per pixel holds the running estimate; each frame blends the
//! fresh sample in with weight `1 / samples` (an exponential moving average
//! whose weight schedule makes it the running mean), and the sample counter
//! grows by exactly one per frame. A resize reallocates the buffer, zeroes
//! every cell and restarts the counter at one, in one step — the counter and
//! the buffer never disagree about how many samples are in. The first
//! post-resize frame is therefore written, not blended.
//!
//! Every invocation owns exactly one cell; the frame loop here visits them
//! in row order, but no cell's update reads any other, so the order is free
//! (the dispatch mechanism is interchangeable).

use vstd::prelude::*;
use vstd::pervasive::VecAdditionalExecFns;
use crate::camera::{primary_ray, primary_ray_s, Camera};
use crate::fx::{fx_add, fx_add_s, fx_div, fx_div_s, fx_mul, fx_mul_s, SCALE};
use crate::rng::Rng;
use crate::scene::Scene;
use crate::trace::{trace, trace_s};
use crate::uniform::{Consts, UVec2};
use crate::vec::{Vec3, Vec4};

verus! {

/// The sampler seed of pixel `(px, py)` on the frame with sample counter
/// `samples`: `px * samples + py * width`, wrapped to 32 bits.
pub open spec fn seed_s(px: u32, py: u32, samples: u32, width: u32) -> u32 {
    (((px as int) * (samples as int) + (py as int) * (width as int)) % 0x100000000) as u32
}

/// The radiance sample of one pixel on one frame: seed, jittered primary
/// ray, one traced path.
#[verifier::opaque]
pub open spec fn render_pixel_s(
    scene: Scene,
    cam: Camera,
    px: u32,
    py: u32,
    w: u32,
    h: u32,
    samples: u32,
) -> Vec3 {
    let s0 = seed_s(px, py, samples, w);
    let ray = primary_ray_s(cam, px, py, w, h, s0).0;
    let s1 = primary_ray_s(cam, px, py, w, h, s0).1;
    trace_s(scene, ray, s1).0
}

/// The blend weight of the frame with sample counter `n`: `1 / n`.
pub open spec fn blend_weight_s(n: u32) -> int {
    fx_div_s(SCALE as int, (n as int) * (SCALE as int))
}

/// One channel of the blend: `c * (1 - w) + x * w` with `w == 1 / n`.
pub open spec fn blend1_s(c: int, x: int, n: u32) -> int {
    let w = blend_weight_s(n);
    let rest = fx_add_s(SCALE as int, -w);
    fx_add_s(fx_mul_s(c, rest), fx_mul_s(x, w))
}

/// The blend of a fresh sample into a cell under sample counter `n`:
/// `cell * (1 - w) + extend(color, 1) * w` with `w == 1 / n`.
#[verifier::opaque]
pub open spec fn blend_s(cell: Vec4, color: Vec3, n: u32) -> Vec4 {
    (Vec4 {
        x: blend1_s(cell.x as int, color.x as int, n) as i64,
        y: blend1_s(cell.y as int, color.y as int, n) as i64,
        z: blend1_s(cell.z as int, color.z as int, n) as i64,
        w: blend1_s(cell.w as int, SCALE as int, n) as i64,
    })
}

/// Compute one pixel's radiance sample for the current frame.
pub fn render_pixel(scene: &Scene, cam: &Camera, px: u32, py: u32, w: u32, h: u32, samples: u32)
    -> (c: Vec3)
    requires
        scene.wf(),
    ensures
        c == render_pixel_s(*scene, *cam, px, py, w, h, samples),
{
    let t1 = px.wrapping_mul(samples);
    let t2 = py.wrapping_mul(w);
    let seed = t1.wrapping_add(t2);
    proof {
        lemma_seed(px, py, samples, w, t1, t2, seed);
        reveal(render_pixel_s);
    }
    let mut rng = Rng(seed);
    let ray = primary_ray(cam, px, py, w, h, &mut rng);
    trace(scene, ray, &mut rng)
}

/// The two wrapped products and their wrapped sum make exactly `seed_s`.
proof fn lemma_seed(px: u32, py: u32, samples: u32, w: u32, t1: u32, t2: u32, seed: u32)
    requires
        t1 as int == ((px as int) * (samples as int)) % 0x100000000,
        t2 as int == ((py as int) * (w as int)) % 0x100000000,
        seed as int == if t1 + t2 > u32::MAX {
            t1 + t2 - 0x100000000
        } else {
            t1 + t2
        },
    ensures
        seed == seed_s(px, py, samples, w),
{
    let m = 0x100000000int;
    let a = (px as int) * (samples as int);
    let b = (py as int) * (w as int);
    vstd::arithmetic::div_mod::lemma_add_mod_noop(a, b, m);
    if t1 + t2 > u32::MAX {
        vstd::arithmetic::div_mod::lemma_mod_sub_multiples_vanish(t1 + t2, m);
        vstd::arithmetic::div_mod::lemma_small_mod((t1 + t2 - m) as nat, m as nat);
    } else {
        vstd::arithmetic::div_mod::lemma_small_mod((t1 + t2) as nat, m as nat);
    }
}

/// Blend one sample into one cell.
pub fn blend(cell: Vec4, color: Vec3, n: u32) -> (r: Vec4)
    requires
        n >= 1,
    ensures
        r == blend_s(cell, color, n),
{
    proof {
        reveal(blend_s);
    }
    let w = fx_div(SCALE, n as i64 * SCALE);
    let rest = fx_add(SCALE, -w);
    Vec4 {
        x: fx_add(fx_mul(cell.x, rest), fx_mul(color.x, w)),
        y: fx_add(fx_mul(cell.y, rest), fx_mul(color.y, w)),
        z: fx_add(fx_mul(cell.z, rest), fx_mul(color.z, w)),
        w: fx_add(fx_mul(cell.w, rest), fx_mul(SCALE, w)),
    }
}

/// At sample counter one the blend writes the sample exactly — whatever the
/// cell held before contributes nothing.
pub proof fn lemma_first_sample_written(cell: Vec4, color: Vec3)
    ensures
        blend_s(cell, color, 1) == (Vec4 { x: color.x, y: color.y, z: color.z, w: SCALE }),
{
    reveal(blend_s);
    vstd::arithmetic::div_mod::lemma_div_multiples_vanish(SCALE as int, SCALE as int);
    assert(fx_div_s(SCALE as int, 1 * (SCALE as int)) == SCALE as int);
    assert(fx_mul_s(cell.x as int, 0) == 0);
    assert(fx_mul_s(cell.y as int, 0) == 0);
    assert(fx_mul_s(cell.z as int, 0) == 0);
    assert(fx_mul_s(cell.w as int, 0) == 0);
    crate::fx::lemma_fx_mul_one(color.x as int);
    crate::fx::lemma_fx_mul_one(color.y as int);
    crate::fx::lemma_fx_mul_one(color.z as int);
    crate::fx::lemma_fx_mul_one(SCALE as int);
}

/// Determinism: the sample of a pixel is a function of
/// `(pixel, sample counter, image size, scene, camera)` alone — two samples
/// under equal inputs are equal bit for bit, across runs.
pub proof fn lemma_sample_deterministic(
    scene: Scene,
    cam: Camera,
    px: u32,
    py: u32,
    w: u32,
    h: u32,
    samples: u32,
    c1: Vec3,
    c2: Vec3,
)
    requires
        c1 == render_pixel_s(scene, cam, px, py, w, h, samples),
        c2 == render_pixel_s(scene, cam, px, py, w, h, samples),
    ensures
        c1 == c2,
{
}

/// Cells of earlier rows come before every cell of a later row.
proof fn lemma_index_order(x: int, y: int, px: int, py: int, w: int)
    requires
        0 <= x < w,
        0 <= y < py,
        0 <= px,
    ensures
        y * w + x < py * w + px,
{
    assert(y * w + x < py * w + px) by (nonlinear_arith)
        requires
            0 <= x < w,
            0 <= y < py,
            0 <= px,
    ;
}

/// The blend weight lies on the unit interval for every counter value.
proof fn lemma_blend_weight_range(n: u32)
    requires
        n >= 1,
    ensures
        0 <= blend_weight_s(n) <= SCALE,
{
    let s = SCALE as int;
    vstd::arithmetic::div_mod::lemma_div_pos_is_pos(s * s, (n as int) * s);
    assert(s <= (n as int) * s) by (nonlinear_arith)
        requires
            n >= 1,
            s == 65536,
    ;
    vstd::arithmetic::div_mod::lemma_div_is_ordered_by_denominator(s * s, s, (n as int) * s);
    vstd::arithmetic::div_mod::lemma_div_multiples_vanish(s, s);
}

/// Progressive stability: blending a sample into a cell never moves the
/// estimate away from that sample by more than the blend's own rounding —
/// per channel, the new distance to the sample is at most the old distance
/// plus two units. With the exact write at counter one
/// (`lemma_first_sample_written`) this pins the estimate to the samples it
/// absorbs.
pub proof fn lemma_blend_approaches_sample(c: int, x: int, n: u32)
    requires
        n >= 1,
        -0x10000000000 <= c <= 0x10000000000,
        -0x10000000000 <= x <= 0x10000000000,
    ensures
        blend1_s(c, x, n) - x <= vstd::math::abs(c - x) + 2,
        x - blend1_s(c, x, n) <= vstd::math::abs(c - x) + 2,
{
    let s = SCALE as int;
    let w = blend_weight_s(n);
    lemma_blend_weight_range(n);
    let rest = fx_add_s(s, -w);
    assert(rest == s - w);
    let pa = c * rest;
    let pb = x * w;
    crate::fx::lemma_abs_mul_bound(c, rest, 0x10000000000, s);
    crate::fx::lemma_abs_mul_bound(x, w, 0x10000000000, s);
    crate::fx::lemma_tdiv_error(pa, s);
    crate::fx::lemma_tdiv_error(pb, s);
    let ta = crate::fx::tdiv(pa, s);
    let tb = crate::fx::tdiv(pb, s);
    // Neither channel product saturates at these magnitudes.
    assert(fx_mul_s(c, rest) == ta && fx_mul_s(x, w) == tb);
    assert(blend1_s(c, x, n) == fx_add_s(ta, tb));
    assert(fx_add_s(ta, tb) == ta + tb);
    // The exact blend shrinks the gap: c*(s-w) + x*w - s*x == (c-x)*(s-w).
    assert(pa + pb - s * x == (c - x) * (s - w)) by (nonlinear_arith)
        requires
            pa == c * (s - w),
            pb == x * w,
            rest == s - w,
    ;
    let d = vstd::math::abs(c - x) as int;
    assert(-(d * s) <= (c - x) * (s - w) <= d * s) by (nonlinear_arith)
        requires
            0 <= s - w <= s,
            -d <= c - x <= d,
            0 <= d,
    ;
    assert(s * (ta + tb - x) <= d * s + 2 * s - 2);
    assert(s * (x - ta - tb) <= d * s + 2 * s - 2);
    assert(ta + tb - x <= d + 2 && x - (ta + tb) <= d + 2) by (nonlinear_arith)
        requires
            s == 65536,
            s * (ta + tb - x) <= d * s + 2 * s - 2,
            s * (x - ta - tb) <= d * s + 2 * s - 2,
    ;
}

/// The accumulation buffer with its frame record: the progressive state.
pub struct Accum {
    pub cells: Vec<Vec4>,
    pub consts: Consts,
}

/// An external trigger of the host loop: a new output size, or a request to
/// draw the next frame.
pub enum HostEvent {
    Resized(u32, u32),
    RedrawRequested,
}

impl Accum {
    /// The cell count matches the recorded size, and at least one sample is
    /// (being) accumulated.
    pub open spec fn wf(self) -> bool {
        self.cells@.len() == (self.consts.size.x as int) * (self.consts.size.y as int)
            && self.consts.samples >= 1
    }

    /// Fresh progressive state for size `(w, h)`: all cells zero, counter
    /// one.
    pub fn new(w: u32, h: u32) -> (a: Accum)
        requires
            (w as int) * (h as int) <= usize::MAX,
        ensures
            a.wf(),
            a.consts == (Consts { size: (UVec2 { x: w, y: h }), samples: 1 }),
            forall|i: int| 0 <= i < a.cells@.len() ==> a.cells@[i] == (Vec4 { x: 0, y: 0, z: 0, w: 0 }),
    {
        let n: usize = (w as usize) * (h as usize);
        let mut cells: Vec<Vec4> = Vec::new();
        let mut i: usize = 0;
        while i < n
            invariant
                i <= n,
                cells@.len() == i,
                forall|k: int| 0 <= k < i ==> cells@[k] == (Vec4 { x: 0, y: 0, z: 0, w: 0 }),
            decreases n - i,
        {
            cells.push(Vec4::zero());
            i += 1;
        }
        Accum { cells, consts: Consts { size: UVec2 { x: w, y: h }, samples: 1 } }
    }

    /// Resize: reallocate at the new size, zero every cell, restart the
    /// counter at one — one atomic reset, never interleaved with a frame.
    pub fn reset_accumulation(&mut self, w: u32, h: u32)
        requires
            (w as int) * (h as int) <= usize::MAX,
        ensures
            final (self).wf(),
            final (self).consts == (Consts { size: (UVec2 { x: w, y: h }), samples: 1 }),
            forall|i: int|
                0 <= i < final (self).cells@.len() ==> final (self).cells@[i] == (Vec4 {
                    x: 0,
                    y: 0,
                    z: 0,
                    w: 0,
                }),
    {
        *self = Accum::new(w, h);
    }

    /// Render one frame: compute every pixel's sample against the current
    /// counter, blend it into that pixel's cell — no other cell moves — and
    /// step the counter by exactly one.
    pub fn render_frame(&mut self, scene: &Scene, cam: &Camera)
        requires
            old(self).wf(),
            old(self).consts.samples < u32::MAX,
            scene.wf(),
        ensures
            final (self).wf(),
            final (self).consts.size == old(self).consts.size,
            final (self).consts.samples == old(self).consts.samples + 1,
            final (self).cells@.len() == old(self).cells@.len(),
            forall|px: u32, py: u32|
                px < old(self).consts.size.x && py < old(self).consts.size.y ==> final (
                self).cells@[(py as int) * (old(self).consts.size.x as int) + px as int] == blend_s(
                    old(self).cells@[(py as int) * (old(self).consts.size.x as int) + px as int],
                    #[trigger] render_pixel_s(
                        *scene,
                        *cam,
                        px,
                        py,
                        old(self).consts.size.x,
                        old(self).consts.size.y,
                        old(self).consts.samples,
                    ),
                    old(self).consts.samples,
                ),
    {
        let w = self.consts.size.x;
        let h = self.consts.size.y;
        let n = self.consts.samples;
        let total = self.cells.len();
        let ghost cells0 = self.cells@;
        let mut py: u32 = 0;
        while py < h
            invariant
                py <= h,
                cells0.len() == total,
                self.consts.size.x == w,
                self.consts.size.y == h,
                self.consts.samples == n,
                scene.wf(),
                n >= 1,
                self.cells@.len() == cells0.len(),
                cells0.len() == (w as int) * (h as int),
                forall|x: u32, y: u32|
                    x < w && y < py ==> self.cells@[(y as int) * (w as int) + x as int] == blend_s(
                        cells0[(y as int) * (w as int) + x as int],
                        #[trigger] render_pixel_s(*scene, *cam, x, y, w, h, n),
                        n,
                    ),
                forall|i: int|
                    (py as int) * (w as int) <= i < cells0.len() ==> self.cells@[i] == cells0[i],
            decreases h - py,
        {
            let mut px: u32 = 0;
            proof {
                assert((py as int + 1) * (w as int) <= (h as int) * (w as int))
                    by (nonlinear_arith)
                    requires
                        py < h,
                        w >= 0,
                ;
                assert((h as int) * (w as int) == (w as int) * (h as int)) by (nonlinear_arith);
            }
            while px < w
                invariant
                    px <= w,
                    py < h,
                    cells0.len() == total,
                    self.consts.size.x == w,
                    self.consts.size.y == h,
                    self.consts.samples == n,
                    scene.wf(),
                    n >= 1,
                    self.cells@.len() == cells0.len(),
                    cells0.len() == (w as int) * (h as int),
                    (py as int + 1) * (w as int) <= cells0.len(),
                    forall|x: u32, y: u32|
                        x < w && y < py ==> self.cells@[(y as int) * (w as int) + x as int]
                            == blend_s(
                            cells0[(y as int) * (w as int) + x as int],
                            #[trigger] render_pixel_s(*scene, *cam, x, y, w, h, n),
                            n,
                        ),
                    forall|x: u32|
                        x < px ==> self.cells@[(py as int) * (w as int) + x as int] == blend_s(
                            cells0[(py as int) * (w as int) + x as int],
                            #[trigger] render_pixel_s(*scene, *cam, x, py, w, h, n),
                            n,
                        ),
                    forall|i: int|
                        (py as int) * (w as int) + (px as int) <= i < cells0.len()
                            ==> self.cells@[i] == cells0[i],
                decreases w - px,
            {
                let color = render_pixel(scene, cam, px, py, w, h, n);
                proof {
                    assert((py as int) * (w as int) + (px as int) < (py as int + 1) * (w as int))
                        by (nonlinear_arith)
                        requires
                            px < w,
                            py >= 0,
                    ;
                }
                let idx: usize = (py as usize) * (w as usize) + (px as usize);
                let cell = self.cells[idx];
                self.cells.set(idx, blend(cell, color, n));
                proof {
                    assert forall|x: u32, y: u32|
                        x < w && y < py implies self.cells@[(y as int) * (w as int) + x as int]
                            == blend_s(
                            cells0[(y as int) * (w as int) + x as int],
                            #[trigger] render_pixel_s(*scene, *cam, x, y, w, h, n),
                            n,
                        ) by {
                        lemma_index_order(x as int, y as int, px as int, py as int, w as int);
                    };
                }
                px += 1;
            }
            proof {
                assert((py as int + 1) * (w as int) == (py as int) * (w as int) + (w as int))
                    by (nonlinear_arith);
            }
            py += 1;
        }
        self.consts.samples = n + 1;
    }

    /// The host loop's two triggers: a resize resets the progressive state;
    /// a redraw request renders and accumulates one frame.
    pub fn step(&mut self, scene: &Scene, cam: &Camera, ev: HostEvent)
        requires
            old(self).wf(),
            ev is RedrawRequested ==> old(self).consts.samples < u32::MAX,
            scene.wf(),
            ev matches HostEvent::Resized(w, h) ==> (w as int) * (h as int) <= usize::MAX,
        ensures
            final (self).wf(),
            ev matches HostEvent::Resized(w, h) ==> final (self).consts == (Consts {
                size: (UVec2 { x: w, y: h }),
                samples: 1,
            }) && (forall|i: int|
                0 <= i < final (self).cells@.len() ==> final (self).cells@[i] == (Vec4 {
                    x: 0,
                    y: 0,
                    z: 0,
                    w: 0,
                })),
            ev is RedrawRequested ==> final (self).consts.samples == old(self).consts.samples + 1
                && final (self).consts.size == old(self).consts.size && final (self).cells@.len()
                == old(self).cells@.len(),
            ev is RedrawRequested ==> forall|px: u32, py: u32|
                px < old(self).consts.size.x && py < old(self).consts.size.y ==> final (
                self).cells@[(py as int) * (old(self).consts.size.x as int) + px as int] == blend_s(
                    old(self).cells@[(py as int) * (old(self).consts.size.x as int) + px as int],
                    #[trigger] render_pixel_s(
                        *scene,
                        *cam,
                        px,
                        py,
                        old(self).consts.size.x,
                        old(self).consts.size.y,
                        old(self).consts.samples,
                    ),
                    old(self).consts.samples,
                ),
    {
        match ev {
            HostEvent::Resized(w, h) => self.reset_accumulation(w, h),
            HostEvent::RedrawRequested => self.render_frame(scene, cam),
        }
    }
}

} // verus!
