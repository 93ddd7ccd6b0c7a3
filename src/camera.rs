use vstd::prelude::*;

verus! {

/// Fractions of a frame's interpolation are given in millionths.
pub const FRACTION_ONE: u64 = 1_000_000;

/// How fast the camera closes on the player: this many times the remaining gap per second.
pub const CAM_LERP_FACTOR: u64 = 2;

/// The camera: planar position, a depth that tracking never changes, and a zoom in percent.
#[derive(Clone, Copy, Debug, PartialEq, Eq, Structural)]
pub struct Camera {
    pub x: i64,
    pub y: i64,
    pub z: i64,
    pub zoom_percent: u32,
}

/// The interpolation fraction of one frame, in millionths: `dt * CAM_LERP_FACTOR` clamped to one.
pub open spec fn lerp_fraction(dt_us: int) -> int {
    if dt_us * (CAM_LERP_FACTOR as int) >= FRACTION_ONE as int {
        FRACTION_ONE as int
    } else if dt_us <= 0 {
        0
    } else {
        dt_us * (CAM_LERP_FACTOR as int)
    }
}

/// One step of linear interpolation from `c` towards `p` by `t` millionths of the gap.
/// The step is rounded up in magnitude, so a non-zero fraction always makes progress.
pub open spec fn lerp_axis(c: int, p: int, t: int) -> int {
    if c <= p {
        c + ((p - c) * t + FRACTION_ONE as int - 1) / (FRACTION_ONE as int)
    } else {
        c - ((c - p) * t + FRACTION_ONE as int - 1) / (FRACTION_ONE as int)
    }
}

/// Squared planar distance between two points.
pub open spec fn dist2(ax: int, ay: int, bx: int, by: int) -> int {
    (ax - bx) * (ax - bx) + (ay - by) * (ay - by)
}

/// The camera after one tracking step towards the planar point `(px, py)`.
pub open spec fn followed(c: Camera, px: int, py: int, dt_us: int) -> (int, int) {
    let t = lerp_fraction(dt_us);
    (lerp_axis(c.x as int, px, t), lerp_axis(c.y as int, py, t))
}

/// The step of a gap `d >= 0` by `t` millionths, rounded up, lies in `0..=d`;
/// it is at least one when both are positive and the whole gap when `t` is one.
pub proof fn lemma_step_bounds(d: int, t: int)
    requires
        0 <= d,
        0 <= t <= FRACTION_ONE as int,
    ensures
        0 <= (d * t + FRACTION_ONE as int - 1) / (FRACTION_ONE as int) <= d,
        d > 0 && t > 0 ==> (d * t + FRACTION_ONE as int - 1) / (FRACTION_ONE as int) >= 1,
        t == FRACTION_ONE as int ==> (d * t + FRACTION_ONE as int - 1) / (FRACTION_ONE as int) == d,
{
    let f = FRACTION_ONE as int;
    let n = d * t + f - 1;
    assert(0 <= d * t <= d * f) by (nonlinear_arith)
        requires
            0 <= d,
            0 <= t <= f,
    ;
    assert(n < (d + 1) * f) by (nonlinear_arith)
        requires
            n == d * t + f - 1,
            d * t <= d * f,
    ;
    assert(0 <= n / f <= d) by (nonlinear_arith)
        requires
            0 <= n < (d + 1) * f,
            f > 0,
    ;
    if d > 0 && t > 0 {
        assert(d * t >= 1) by (nonlinear_arith)
            requires
                d >= 1,
                t >= 1,
        ;
        assert(n / f >= 1) by (nonlinear_arith)
            requires
                n >= f,
                f > 0,
        ;
    }
    if t == f {
        assert(n / f == d) by (nonlinear_arith)
            requires
                n == d * f + f - 1,
                f > 0,
        ;
    }
}

/// One interpolation step stays between the start and the target, never moves away
/// from the target, strictly approaches it for a positive fraction, and reaches it
/// when the fraction is one.
pub proof fn lemma_lerp_axis(c: int, p: int, t: int)
    requires
        0 <= t <= FRACTION_ONE as int,
    ensures
        c <= p ==> c <= lerp_axis(c, p, t) <= p,
        p <= c ==> p <= lerp_axis(c, p, t) <= c,
        c != p && t > 0 ==> (lerp_axis(c, p, t) - p) * (lerp_axis(c, p, t) - p) < (c - p) * (c - p),
        (lerp_axis(c, p, t) - p) * (lerp_axis(c, p, t) - p) <= (c - p) * (c - p),
        t == FRACTION_ONE as int ==> lerp_axis(c, p, t) == p,
{
    let r = lerp_axis(c, p, t);
    if c <= p {
        lemma_step_bounds(p - c, t);
    } else {
        lemma_step_bounds(c - p, t);
    }
    assert((r - p) * (r - p) <= (c - p) * (c - p)) by (nonlinear_arith)
        requires
            c <= p ==> c <= r <= p,
            p <= c ==> p <= r <= c,
    ;
    if c != p && t > 0 {
        assert(r != c);
        assert((r - p) * (r - p) < (c - p) * (c - p)) by (nonlinear_arith)
            requires
                c <= p ==> c <= r <= p,
                p <= c ==> p <= r <= c,
                r != c,
    ;
    }
}

/// The planar camera position after `n` frames of `dt_us` microseconds each, tracking the
/// stationary point `(px, py)` from `(cx, cy)`.
pub open spec fn follow_frames(cx: int, cy: int, px: int, py: int, dt_us: int, n: nat) -> (int, int)
    decreases n,
{
    if n == 0 {
        (cx, cy)
    } else {
        let prev = follow_frames(cx, cy, px, py, dt_us, (n - 1) as nat);
        let t = lerp_fraction(dt_us);
        (lerp_axis(prev.0, px, t), lerp_axis(prev.1, py, t))
    }
}

/// Tracking a stationary player with a positive frame time: on every frame that starts away
/// from the player the squared distance to it strictly shrinks, each coordinate stays between
/// where it was and the player's, and once the camera is on the player it stays there.
/// A frame long enough to saturate the fraction lands exactly on the player.
pub proof fn lemma_camera_converges(cx: int, cy: int, px: int, py: int, dt_us: int, n: nat)
    requires
        dt_us > 0,
    ensures
        ({
            let a = follow_frames(cx, cy, px, py, dt_us, n);
            let b = follow_frames(cx, cy, px, py, dt_us, n + 1);
            &&& (a.0 != px || a.1 != py) ==> dist2(b.0, b.1, px, py) < dist2(a.0, a.1, px, py)
            &&& (a.0 == px && a.1 == py) ==> b == a
            &&& (a.0 <= px ==> a.0 <= b.0 <= px) && (px <= a.0 ==> px <= b.0 <= a.0)
            &&& (a.1 <= py ==> a.1 <= b.1 <= py) && (py <= a.1 ==> py <= b.1 <= a.1)
        }),
        dt_us * (CAM_LERP_FACTOR as int) >= FRACTION_ONE as int ==> follow_frames(cx, cy, px, py, dt_us, 1) == (px, py),
{
    let a = follow_frames(cx, cy, px, py, dt_us, n);
    let t = lerp_fraction(dt_us);
    assert(0 < t <= FRACTION_ONE as int);
    lemma_lerp_axis(a.0, px, t);
    lemma_lerp_axis(a.1, py, t);
    lemma_lerp_axis(cx, px, t);
    lemma_lerp_axis(cy, py, t);
    assert(follow_frames(cx, cy, px, py, dt_us, 0) == (cx, cy));
}

/// The interpolation fraction of a frame lasting `dt_us` microseconds.
pub fn frame_fraction(dt_us: u32) -> (t: u64)
    ensures
        t as int == lerp_fraction(dt_us as int),
        t <= FRACTION_ONE,
{
    let scaled: u64 = dt_us as u64 * CAM_LERP_FACTOR;
    if scaled >= FRACTION_ONE {
        FRACTION_ONE
    } else {
        scaled
    }
}

/// Moves one coordinate `t` millionths of the way from `c` to `p`, rounding the step up.
pub fn step_axis(c: i64, p: i64, t: u64) -> (r: i64)
    requires
        t <= FRACTION_ONE,
    ensures
        r as int == lerp_axis(c as int, p as int, t as int),
{
    proof {
        lemma_lerp_axis(c as int, p as int, t as int);
    }
    let ci: i128 = c as i128;
    let pi: i128 = p as i128;
    let ti: i128 = t as i128;
    let f: i128 = FRACTION_ONE as i128;
    if c <= p {
        let d: i128 = pi - ci;
        assert(d * ti <= 0x1_0000_0000_0000_0000 * 0x10_0000) by (nonlinear_arith)
            requires
                0 <= d < 0x1_0000_0000_0000_0000,
                0 <= ti <= 0x10_0000,
        ;
        let step: i128 = (d * ti + f - 1) / f;
        (ci + step) as i64
    } else {
        let d: i128 = ci - pi;
        assert(d * ti <= 0x1_0000_0000_0000_0000 * 0x10_0000) by (nonlinear_arith)
            requires
                0 <= d < 0x1_0000_0000_0000_0000,
                0 <= ti <= 0x10_0000,
        ;
        let step: i128 = (d * ti + f - 1) / f;
        (ci - step) as i64
    }
}

/// Tracks the planar point `(px, py)` for one frame of `dt_us` microseconds.
/// The depth and the zoom are untouched.
pub fn track(camera: &mut Camera, px: i64, py: i64, dt_us: u32)
    ensures
        (final(camera).x as int, final(camera).y as int) == followed(*old(camera), px as int, py as int, dt_us as int),
        final(camera).z == old(camera).z,
        final(camera).zoom_percent == old(camera).zoom_percent,
{
    let t = frame_fraction(dt_us);
    camera.x = step_axis(camera.x, px, t);
    camera.y = step_axis(camera.y, py, t);
}

} // verus!
