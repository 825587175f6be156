use crate::fixed::{tdiv, tdiv_i128};
use crate::vec3::{min_i, Vec3};
use vstd::prelude::*;

verus! {

/// The state shared between the display loop and the render worker, the
/// single source of truth for viewport size and camera parameters. The
/// display loop mutates it under a lock; the worker observes it under the
/// same lock.
pub struct SharedState {
    /// Viewport width in pixels.
    pub width: u32,
    /// Viewport height in pixels.
    pub height: u32,
    /// Camera pitch angle, accumulated from pointer motion.
    pub pitch: i64,
    /// Camera yaw angle, accumulated from pointer motion.
    pub yaw: i64,
    /// Camera position in world space.
    pub pos: Vec3,
    /// Field of view.
    pub fov: i64,
    /// The dirty bit: set whenever a render-affecting field changes,
    /// observed and cleared exactly once by the worker.
    pub reload: bool,
}

impl SharedState {
    pub fn new(width: u32, height: u32, pos: Vec3, fov: i64) -> (s: SharedState)
        ensures
            s.width == width,
            s.height == height,
            s.pitch == 0,
            s.yaw == 0,
            s.pos == pos,
            s.fov == fov,
            s.reload,
    {
        SharedState { width, height, pitch: 0, yaw: 0, pos, fov, reload: true }
    }
}

/// The worker's exclusively owned accumulation state: one color accumulator
/// per pixel plus the sample count shared across all pixels.
pub struct Accumulator {
    pub image: Vec<Vec3>,
    pub samples: usize,
}

/// The accumulation buffer matches a viewport exactly when it holds one
/// accumulator per pixel.
pub open spec fn acc_matches(acc: Accumulator, width: int, height: int) -> bool {
    acc.image@.len() == width * height
}

impl Accumulator {
    pub fn new() -> (acc: Accumulator)
        ensures
            acc.image@.len() == 0,
            acc.samples == 0,
    {
        Accumulator { image: Vec::new(), samples: 0 }
    }
}

/// What the worker must do outside this module after observing the shared
/// state: either resize the platform pixel buffer and surface (a reload was
/// processed; nothing is presented this iteration), or tone-map and present
/// what has been accumulated so far.
#[derive(Clone, Copy, Debug, PartialEq, Eq, Structural)]
pub enum WorkerAction {
    Reset { width: u32, height: u32 },
    Present,
}

/// Reset the accumulation buffer for a new viewport: resize it to one entry
/// per pixel (reallocating only when the pixel count changed), clear every
/// accumulator, and restart the sample counter from zero.
pub fn process_reload(acc: &mut Accumulator, width: u32, height: u32)
    requires
        width * height <= usize::MAX,
    ensures
        acc_matches(*final(acc), width as int, height as int),
        final(acc).samples == 0,
        forall|i: int|
            0 <= i < final(acc).image@.len() ==> final(acc).image@[i]@ == (0int, 0int, 0int),
{
    let num_pixels: usize = (width as usize) * (height as usize);
    if acc.image.len() != num_pixels {
        let mut fresh: Vec<Vec3> = Vec::new();
        let mut i: usize = 0;
        while i < num_pixels
            invariant
                i <= num_pixels,
                fresh@.len() == i,
                forall|j: int| 0 <= j < i ==> fresh@[j]@ == (0int, 0int, 0int),
            decreases num_pixels - i,
        {
            fresh.push(Vec3::zero());
            i = i + 1;
        }
        acc.image = fresh;
    } else {
        let mut i: usize = 0;
        while i < acc.image.len()
            invariant
                i <= acc.image@.len(),
                acc.image@.len() == num_pixels,
                acc.samples == old(acc).samples,
                forall|j: int| 0 <= j < i ==> acc.image@[j]@ == (0int, 0int, 0int),
            decreases acc.image@.len() - i,
        {
            let z = Vec3::zero();
            acc.image[i] = z;
            i = i + 1;
        }
    }
    acc.samples = 0;
}

/// One observation of the shared state by the worker, made under the lock:
/// if a reload is pending, reset the accumulation buffer for the recorded
/// viewport and clear the flag, and do not present this iteration; otherwise
/// leave everything as it is and ask for a present. The returned action
/// tells the caller which platform calls to make before releasing the lock.
pub fn worker_observe(state: &mut SharedState, acc: &mut Accumulator) -> (act: WorkerAction)
    requires
        old(state).width * old(state).height <= usize::MAX,
    ensures
        final(state).width == old(state).width,
        final(state).height == old(state).height,
        final(state).pitch == old(state).pitch,
        final(state).yaw == old(state).yaw,
        final(state).pos == old(state).pos,
        final(state).fov == old(state).fov,
        !final(state).reload,
        old(state).reload ==> {
            &&& act == (WorkerAction::Reset { width: old(state).width, height: old(state).height })
            &&& acc_matches(*final(acc), old(state).width as int, old(state).height as int)
            &&& final(acc).samples == 0
            &&& forall|i: int|
                0 <= i < final(acc).image@.len() ==> final(acc).image@[i]@ == (0int, 0int, 0int)
        },
        !old(state).reload ==> {
            &&& act == WorkerAction::Present
            &&& *final(acc) == *old(acc)
            &&& *final(state) == *old(state)
        },
        (old(state).reload || acc_matches(
            *old(acc),
            old(state).width as int,
            old(state).height as int,
        )) ==> acc_matches(*final(acc), old(state).width as int, old(state).height as int),
{
    if state.reload {
        process_reload(acc, state.width, state.height);
        state.reload = false;
        WorkerAction::Reset { width: state.width, height: state.height }
    } else {
        WorkerAction::Present
    }
}

/// The camera parameters the worker snapshots under the lock before tracing
/// a pass outside it.
#[derive(Clone, Copy, Debug, PartialEq, Eq, Structural)]
pub struct CameraParams {
    pub fov: i64,
    pub pitch: i64,
    pub yaw: i64,
    pub pos: Vec3,
    /// Width over height as a fixed-point ratio.
    pub aspect: i64,
}

/// Snapshot the camera parameters, with the aspect ratio computed from the
/// viewport.
pub fn camera_snapshot(state: &SharedState) -> (c: CameraParams)
    requires
        state.height > 0,
    ensures
        c.fov == state.fov,
        c.pitch == state.pitch,
        c.yaw == state.yaw,
        c.pos == state.pos,
        c.aspect == tdiv(state.width * 65536, state.height as int),
{
    proof {
        crate::fixed::lemma_tdiv_bound(
            state.width * 65536,
            state.height as int,
            0xffffffff * 65536int,
        );
        assert(0xffffffff * 65536int / (state.height as int) <= 0xffffffff * 65536int)
            by (nonlinear_arith)
            requires
                state.height >= 1,
        ;
    }
    let aspect = tdiv_i128((state.width as i128) * 65536, state.height as i128) as i64;
    CameraParams { fov: state.fov, pitch: state.pitch, yaw: state.yaw, pos: state.pos, aspect }
}

/// One decoded input event, as the display loop hands it to the shared
/// state.
#[derive(Clone, Copy, Debug, PartialEq, Eq, Structural)]
pub enum InputEvent {
    /// Relative pointer motion, in fixed-point units.
    PointerMotion { dx: i64, dy: i64 },
    CloseRequested,
    Resized { width: u32, height: u32 },
    /// The key that flips pointer capture; it affects input routing only.
    ToggleCapture,
    DecreaseFov,
    IncreaseFov,
}

/// Whether an event's effect on the shared state stays within the machine
/// range of the accumulated angle and field-of-view fields.
pub open spec fn event_fits(state: SharedState, event: InputEvent) -> bool {
    match event {
        InputEvent::PointerMotion { dx, dy } => {
            &&& -0x8000000000000000 <= state.pitch + tdiv(dy as int, 5) <= 0x7fffffffffffffff
            &&& -0x8000000000000000 <= state.yaw + tdiv(dx as int, 5) <= 0x7fffffffffffffff
        },
        InputEvent::DecreaseFov => -0x8000000000000000 <= state.fov - 327680,
        InputEvent::IncreaseFov => state.fov + 327680 <= 0x7fffffffffffffff,
        _ => true,
    }
}

/// Apply one input event to the shared state, exactly as the display loop
/// does under the lock: pointer motion above the noise floor tilts the
/// camera by a fifth of the motion and marks a reload; a resize records the
/// new viewport and marks a reload; the field-of-view keys move the field of
/// view by five whole units and mark a reload; the capture toggle flips
/// capture without touching the image; a close request asks the caller to
/// exit. Pointer motion is honored only while capture is on, and motion at
/// or below the noise floor (which lies below one fixed-point unit) changes
/// nothing.
pub fn handle_event(state: &mut SharedState, capture: &mut bool, event: InputEvent) -> (exit: bool)
    requires
        event_fits(*old(state), event),
    ensures
        match event {
            InputEvent::PointerMotion { dx, dy } => {
                &&& *final(capture) == *old(capture)
                &&& (*old(capture) && (dx != 0 || dy != 0)) ==> *final(state) == (SharedState {
                    pitch: (old(state).pitch + tdiv(dy as int, 5)) as i64,
                    yaw: (old(state).yaw + tdiv(dx as int, 5)) as i64,
                    reload: true,
                    ..*old(state)
                })
                &&& (!*old(capture) || (dx == 0 && dy == 0)) ==> *final(state) == *old(state)
                &&& !exit
            },
            InputEvent::CloseRequested => {
                &&& exit
                &&& *final(state) == *old(state)
                &&& *final(capture) == *old(capture)
            },
            InputEvent::Resized { width, height } => {
                &&& *final(state) == (SharedState {
                    width,
                    height,
                    reload: true,
                    ..*old(state)
                })
                &&& *final(capture) == *old(capture)
                &&& !exit
            },
            InputEvent::ToggleCapture => {
                &&& *final(capture) == !*old(capture)
                &&& *final(state) == *old(state)
                &&& !exit
            },
            InputEvent::DecreaseFov => {
                &&& *final(state) == (SharedState {
                    fov: (old(state).fov - 327680) as i64,
                    reload: true,
                    ..*old(state)
                })
                &&& *final(capture) == *old(capture)
                &&& !exit
            },
            InputEvent::IncreaseFov => {
                &&& *final(state) == (SharedState {
                    fov: (old(state).fov + 327680) as i64,
                    reload: true,
                    ..*old(state)
                })
                &&& *final(capture) == *old(capture)
                &&& !exit
            },
        },
{
    match event {
        InputEvent::PointerMotion { dx, dy } => {
            if *capture && (dx != 0 || dy != 0) {
                proof {
                    crate::fixed::lemma_tdiv_bound(dy as int, 5, 0x8000000000000000);
                    crate::fixed::lemma_tdiv_bound(dx as int, 5, 0x8000000000000000);
                }
                let dp = tdiv_i128(dy as i128, 5) as i64;
                let dw = tdiv_i128(dx as i128, 5) as i64;
                state.pitch = state.pitch + dp;
                state.yaw = state.yaw + dw;
                state.reload = true;
            }
            false
        },
        InputEvent::CloseRequested => true,
        InputEvent::Resized { width, height } => {
            state.reload = true;
            state.width = width;
            state.height = height;
            false
        },
        InputEvent::ToggleCapture => {
            *capture = !*capture;
            false
        },
        InputEvent::DecreaseFov => {
            state.reload = true;
            state.fov = state.fov - 327680;
            false
        },
        InputEvent::IncreaseFov => {
            state.reload = true;
            state.fov = state.fov + 327680;
            false
        },
    }
}

/// One tone-mapped byte: the accumulated fixed-point component divided by
/// the sample count, scaled to the 8-bit range, truncated and clamped to
/// `[0, 255]`.
pub open spec fn tone_byte(v: int, samples: int) -> u8 {
    let c = tdiv(v * 255, samples * 65536);
    if c < 0 {
        0u8
    } else if c > 255 {
        255u8
    } else {
        c as u8
    }
}

/// How a tone-mapping pass relates the previous contents of the presentable
/// framebuffer to the new one: every complete four-byte pixel covered by the
/// accumulation buffer holds the tone-mapped color and an opaque alpha, and
/// every byte beyond the covered prefix is untouched.
pub open spec fn render_post(pre: Seq<u8>, post: Seq<u8>, image: Seq<Vec3>, samples: int) -> bool {
    let n = min_i(image.len() as int, pre.len() as int / 4);
    &&& post.len() == pre.len()
    &&& forall|i: int|
        0 <= i < n ==> {
            &&& post[4 * i] == tone_byte(image[i].x as int, samples)
            &&& post[4 * i + 1] == tone_byte(image[i].y as int, samples)
            &&& post[4 * i + 2] == tone_byte(image[i].z as int, samples)
            &&& post[4 * i + 3] == 255u8
        }
    &&& forall|j: int| 4 * n <= j < post.len() ==> post[j] == pre[j]
}

/// Tone-map one component.
fn tone_component(v: i64, samples: usize) -> (b: u8)
    requires
        samples >= 1,
    ensures
        b == tone_byte(v as int, samples as int),
{
    let num: i128 = (v as i128) * 255;
    let den: i128 = (samples as i128) * 65536;
    let c = tdiv_i128(num, den);
    if c < 0 {
        0
    } else if c > 255 {
        255
    } else {
        c as u8
    }
}

/// Tone-map the accumulation buffer into the presentable framebuffer:
/// divide each accumulated color by the sample count, scale to the 8-bit
/// range, clamp, and write RGB plus an opaque alpha byte for every pixel
/// both buffers cover.
pub fn render_to_buffer(screen: &mut Vec<u8>, image: &Vec<Vec3>, samples: usize)
    requires
        samples >= 1,
    ensures
        render_post(old(screen)@, final(screen)@, image@, samples as int),
{
    let pixels = screen.len() / 4;
    proof {
        vstd::arithmetic::div_mod::lemma_fundamental_div_mod(screen@.len() as int, 4);
        vstd::arithmetic::div_mod::lemma_mod_division_less_than_divisor(screen@.len() as int, 4);
    }
    let n = if image.len() < pixels {
        image.len()
    } else {
        pixels
    };
    let mut i: usize = 0;
    while i < n
        invariant
            samples >= 1,
            i <= n,
            n == min_i(image@.len() as int, old(screen)@.len() as int / 4),
            4 * n <= old(screen)@.len(),
            4 * n <= usize::MAX,
            screen@.len() == old(screen)@.len(),
            forall|k: int|
                0 <= k < i ==> {
                    &&& screen@[4 * k] == tone_byte(image@[k].x as int, samples as int)
                    &&& screen@[4 * k + 1] == tone_byte(image@[k].y as int, samples as int)
                    &&& screen@[4 * k + 2] == tone_byte(image@[k].z as int, samples as int)
                    &&& screen@[4 * k + 3] == 255u8
                }
            ,
            forall|j: int| 4 * i <= j < screen@.len() ==> screen@[j] == old(screen)@[j],
        decreases n - i,
    {
        let p = image[i];
        let r = tone_component(p.x, samples);
        let g = tone_component(p.y, samples);
        let b = tone_component(p.z, samples);
        screen[4 * i] = r;
        screen[4 * i + 1] = g;
        screen[4 * i + 2] = b;
        screen[4 * i + 3] = 255;
        i = i + 1;
    }
}

/// Tone-mapping is idempotent on re-presentation of the same accumulation
/// and sample count: two passes without an intervening accumulation write
/// the same bytes, so the framebuffers after the first and after the second
/// pass are identical.
pub proof fn lemma_render_idempotent(
    s0: Seq<u8>,
    s1: Seq<u8>,
    s2: Seq<u8>,
    image: Seq<Vec3>,
    samples: int,
)
    requires
        render_post(s0, s1, image, samples),
        render_post(s1, s2, image, samples),
    ensures
        s1 == s2,
{
    let n = min_i(image.len() as int, s0.len() as int / 4);
    assert(s1.len() == s0.len());
    assert forall|j: int| 0 <= j < s2.len() implies s2[j] == s1[j] by {
        if j < 4 * n {
            let i = j / 4;
            vstd::arithmetic::div_mod::lemma_fundamental_div_mod(j, 4);
            vstd::arithmetic::div_mod::lemma_mod_division_less_than_divisor(j, 4);
            assert(i < n) by (nonlinear_arith)
                requires
                    j < 4 * n,
                    j == 4 * i + (j % 4),
                    0 <= j % 4 < 4,
            ;
            assert(0 <= i) by (nonlinear_arith)
                requires
                    0 <= j,
                    j == 4 * i + (j % 4),
                    j % 4 < 4,
            ;
            assert(j == 4 * i || j == 4 * i + 1 || j == 4 * i + 2 || j == 4 * i + 3);
            assert(min_i(image.len() as int, s1.len() as int / 4) == n);
            assert(s1[4 * i] == tone_byte(image[i].x as int, samples));
            assert(s1[4 * i + 1] == tone_byte(image[i].y as int, samples));
            assert(s1[4 * i + 2] == tone_byte(image[i].z as int, samples));
            assert(s1[4 * i + 3] == 255u8);
            assert(s2[4 * i] == tone_byte(image[i].x as int, samples));
            assert(s2[4 * i + 1] == tone_byte(image[i].y as int, samples));
            assert(s2[4 * i + 2] == tone_byte(image[i].z as int, samples));
            assert(s2[4 * i + 3] == 255u8);
        }
    }
    assert(s1 =~= s2);
}

} // verus!
