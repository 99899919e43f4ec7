//! Per-frame rendering: the camera/viewport mapping, the pixel loop that
//! fills a framebuffer, and keyboard-driven camera movement.

use vstd::prelude::*;
use crate::color::cclamp3;
use crate::fixed::{iabs, lemma_tz_div_bnd, tz_div, COORD_LIMIT, SCALE, T_FAR};
use crate::framebuffer::{pack_pixel, pixel_at, FrameBuffer};
use crate::scene::{wf_scene, Scene};
use crate::tracer::{spec_trace, trace_ray, RECURSION_LIMIT};
use crate::vec3::{bnd3, Vec3, V3};

verus! {

/// Canvas width in pixels.
pub const CANVAS_WIDTH: usize = 400;

/// Canvas height in pixels.
pub const CANVAS_HEIGHT: usize = 400;

/// Viewport width in world units (one, in fixed-point terms).
pub const VIEWPORT_WIDTH: i128 = 10_000;

/// Viewport height in world units.
pub const VIEWPORT_HEIGHT: i128 = 10_000;

/// Distance from the camera to the viewport plane, in world units.
pub const DISTANCE_CAMERA_VIEWPORT: i128 = 10_000;

/// How far one key press moves the camera (one tenth of a world unit).
pub const MOVE_STEP: i128 = 1_000;

/// Exact model of the camera/viewport mapping: a canvas offset from the
/// image centre becomes a camera-space direction onto the viewport plane.
/// The direction is not normalised; all downstream arithmetic is
/// magnitude-aware.
pub open spec fn spec_c2v(x: int, y: int) -> V3 {
    V3 {
        x: tz_div(x * VIEWPORT_WIDTH, CANVAS_WIDTH as int),
        y: tz_div(y * VIEWPORT_HEIGHT, CANVAS_HEIGHT as int),
        z: DISTANCE_CAMERA_VIEWPORT as int,
    }
}

/// Map centre-origin canvas coordinates to a ray direction in camera
/// space.
pub fn canvas_to_viewport(x: i32, y: i32) -> (d: Vec3)
    requires
        -1000000 <= x <= 1000000,
        -1000000 <= y <= 1000000,
    ensures
        d@ == spec_c2v(x as int, y as int),
        bnd3(d@, COORD_LIMIT as int),
{
    proof {
        lemma_tz_div_bnd((x as int) * (VIEWPORT_WIDTH as int), CANVAS_WIDTH as int, 10000000000);
        lemma_tz_div_bnd((y as int) * (VIEWPORT_HEIGHT as int), CANVAS_HEIGHT as int, 10000000000);
    }
    Vec3 {
        x: crate::fixed::div_tz((x as i128) * VIEWPORT_WIDTH, CANVAS_WIDTH as i128),
        y: crate::fixed::div_tz((y as i128) * VIEWPORT_HEIGHT, CANVAS_HEIGHT as i128),
        z: DISTANCE_CAMERA_VIEWPORT,
    }
}

/// The packed pixel word a frame holds at canvas offset `(x, y)`: the
/// traced colour of the primary ray through that pixel, clamped.
pub open spec fn spec_pixel(scene: Scene, origin: V3, x: int, y: int) -> int {
    pack_pixel(
        cclamp3(
            spec_trace(
                scene,
                origin,
                spec_c2v(x, y),
                SCALE as int,
                T_FAR as int,
                RECURSION_LIMIT as nat,
            ),
        ),
    )
}

/// Render one full frame into a canvas-sized framebuffer: every pixel
/// holds the traced, clamped colour of its primary ray.
pub fn render_frame(fb: &mut FrameBuffer, scene: &Scene, origin: Vec3)
    requires
        wf_scene(*scene),
        bnd3(origin@, COORD_LIMIT as int),
        old(fb).wf(),
        old(fb).spec_width() == CANVAS_WIDTH,
        old(fb).spec_height() == CANVAS_HEIGHT,
    ensures
        final(fb).wf(),
        final(fb).spec_width() == CANVAS_WIDTH,
        final(fb).spec_height() == CANVAS_HEIGHT,
        forall|sx: int, sy: int|
            0 <= sx < 400 && 0 <= sy < 400 ==> pixel_at(final(fb).pixels(), 400, sx, sy)
                == spec_pixel(*scene, origin@, sx - 200, 199 - sy),
{
    let mut x: i32 = -200;
    while x < 200
        invariant
            -200 <= x <= 200,
            wf_scene(*scene),
            bnd3(origin@, COORD_LIMIT as int),
            fb.wf(),
            fb.spec_width() == CANVAS_WIDTH,
            fb.spec_height() == CANVAS_HEIGHT,
            forall|sx: int, sy: int|
                0 <= sx < x + 200 && 0 <= sy < 400 ==> pixel_at(fb.pixels(), 400, sx, sy)
                    == spec_pixel(*scene, origin@, sx - 200, 199 - sy),
        decreases 200 - x,
    {
        let mut y: i32 = -200;
        while y < 200
            invariant
                -200 <= x < 200,
                -200 <= y <= 200,
                wf_scene(*scene),
                bnd3(origin@, COORD_LIMIT as int),
                fb.wf(),
                fb.spec_width() == CANVAS_WIDTH,
                fb.spec_height() == CANVAS_HEIGHT,
                forall|sx: int, sy: int|
                    0 <= sx < x + 200 && 0 <= sy < 400 ==> pixel_at(fb.pixels(), 400, sx, sy)
                        == spec_pixel(*scene, origin@, sx - 200, 199 - sy),
                forall|sy: int|
                    199 - y < sy < 400 ==> #[trigger] pixel_at(fb.pixels(), 400, x + 200, sy)
                        == spec_pixel(*scene, origin@, x as int, 199 - sy),
            decreases 200 - y,
        {
            let direction = canvas_to_viewport(x, y);
            let color = trace_ray(origin, direction, SCALE, T_FAR, RECURSION_LIMIT, scene);
            let ghost prev = fb.pixels();
            proof {
                fb.lemma_wf_props();
            }
            fb.put_pixel(x, y, color.clamp());
            proof {
                fb.lemma_wf_props();
                let idxw = (199 - y as int) * 400 + (x as int + 200);
                assert(400 * 400 == 160000) by (nonlinear_arith);
                assert(prev.len() == 160000);
                assert(fb.pixels().len() == 160000);
                assert(fb.pixels() == prev.update(
                    idxw,
                    spec_pixel(*scene, origin@, x as int, y as int) as u32,
                ));
                assert forall|sx: int, sy: int|
                    0 <= sx < x + 200 && 0 <= sy < 400 implies pixel_at(fb.pixels(), 400, sx, sy)
                    == spec_pixel(*scene, origin@, sx - 200, 199 - sy) by {
                    assert(0 <= sy * 400 + sx < 160000) by (nonlinear_arith)
                        requires
                            0 <= sx < 400,
                            0 <= sy < 400,
                    ;
                    assert(sy * 400 + sx != idxw);
                    assert(pixel_at(prev, 400, sx, sy) == spec_pixel(
                        *scene,
                        origin@,
                        sx - 200,
                        199 - sy,
                    ));
                }
                assert forall|sy: int|
                    199 - (y + 1) < sy < 400 implies #[trigger] pixel_at(
                    fb.pixels(),
                    400,
                    x + 200,
                    sy,
                ) == spec_pixel(*scene, origin@, x as int, 199 - sy) by {
                    assert(0 <= sy * 400 + (x + 200) < 160000) by (nonlinear_arith)
                        requires
                            0 <= x + 200 < 400,
                            0 <= sy < 400,
                    ;
                    if sy == 199 - y {
                        assert(sy * 400 + (x + 200) == idxw);
                    } else {
                        assert(sy * 400 + (x + 200) != idxw);
                        assert(pixel_at(prev, 400, x + 200, sy) == spec_pixel(
                            *scene,
                            origin@,
                            x as int,
                            199 - sy,
                        ));
                    }
                }
            }
            y = y + 1;
        }
        proof {
            assert forall|sx: int, sy: int|
                0 <= sx < x + 1 + 200 && 0 <= sy < 400 implies pixel_at(fb.pixels(), 400, sx, sy)
                == spec_pixel(*scene, origin@, sx - 200, 199 - sy) by {
                if sx == x + 200 {
                    assert(pixel_at(fb.pixels(), 400, x + 200, sy) == spec_pixel(
                        *scene,
                        origin@,
                        x as int,
                        199 - sy,
                    ));
                }
            }
        }
        x = x + 1;
    }
}

/// One conditional positive movement step along an axis, stopping at the
/// representable world's edge.
pub open spec fn step_up(c: int, b: bool) -> int {
    if b && c + MOVE_STEP <= COORD_LIMIT {
        c + MOVE_STEP
    } else {
        c
    }
}

/// One conditional negative movement step along an axis.
pub open spec fn step_down(c: int, b: bool) -> int {
    if b && -(COORD_LIMIT as int) <= c - MOVE_STEP {
        c - MOVE_STEP
    } else {
        c
    }
}

/// Exact model of one frame's camera movement: forward/back move along
/// `z`, left/right along `x`, up/down along `y`, each by `MOVE_STEP`.
pub open spec fn spec_move(
    o: V3,
    forward: bool,
    back: bool,
    left: bool,
    right: bool,
    up: bool,
    down: bool,
) -> V3 {
    V3 {
        x: step_up(step_down(o.x, left), right),
        y: step_down(step_up(o.y, up), down),
        z: step_down(step_up(o.z, forward), back),
    }
}

fn bump_up(c: i128, b: bool) -> (r: i128)
    requires
        iabs(c as int) <= COORD_LIMIT,
    ensures
        r as int == step_up(c as int, b),
        iabs(r as int) <= COORD_LIMIT,
{
    if b && c + MOVE_STEP <= COORD_LIMIT {
        c + MOVE_STEP
    } else {
        c
    }
}

fn bump_down(c: i128, b: bool) -> (r: i128)
    requires
        iabs(c as int) <= COORD_LIMIT,
    ensures
        r as int == step_down(c as int, b),
        iabs(r as int) <= COORD_LIMIT,
{
    if b && -COORD_LIMIT <= c - MOVE_STEP {
        c - MOVE_STEP
    } else {
        c
    }
}

/// Apply one frame's keyboard movement to the camera origin.  Unlike
/// unbounded arithmetic, a step that would leave the representable world
/// is dropped.
pub fn apply_movement(
    origin: &mut Vec3,
    forward: bool,
    back: bool,
    left: bool,
    right: bool,
    up: bool,
    down: bool,
)
    requires
        bnd3(old(origin)@, COORD_LIMIT as int),
    ensures
        final(origin)@ == spec_move(old(origin)@, forward, back, left, right, up, down),
        bnd3(final(origin)@, COORD_LIMIT as int),
{
    origin.z = bump_up(origin.z, forward);
    origin.x = bump_down(origin.x, left);
    origin.z = bump_down(origin.z, back);
    origin.x = bump_up(origin.x, right);
    origin.y = bump_up(origin.y, up);
    origin.y = bump_down(origin.y, down);
}

} // verus!
