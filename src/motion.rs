use vstd::prelude::*;

verus! {

/// Length units per pixel: positions are fixed-point with this many steps per pixel.
pub const UNITS_PER_PIXEL: i64 = 1000;

/// Microseconds per second: frame deltas are given in microseconds.
pub const MICROS_PER_SECOND: u64 = 1_000_000;

/// The four movement signals held during one frame.
#[derive(Clone, Copy, Debug, PartialEq, Eq, Structural)]
pub struct MoveInput {
    pub up: bool,
    pub down: bool,
    pub left: bool,
    pub right: bool,
}

impl MoveInput {
    /// No movement key held.
    pub open spec fn is_idle(self) -> bool {
        !self.up && !self.down && !self.left && !self.right
    }
}

/// The controllable character: planar position, a fixed depth, and a speed in units per second.
#[derive(Clone, Copy, Debug, PartialEq, Eq, Structural)]
pub struct Player {
    pub x: i64,
    pub y: i64,
    pub z: i64,
    pub movement_speed: u32,
}

/// The signed contribution of a pair of opposing signals to one axis.
pub open spec fn axis_of(pos: bool, neg: bool) -> int {
    (if pos { 1int } else { 0int }) - (if neg { 1int } else { 0int })
}

/// Distance covered along an axis-aligned direction: speed times elapsed time.
pub open spec fn travel(speed: int, dt_us: int) -> int {
    speed * dt_us / (MICROS_PER_SECOND as int)
}

/// `c` is the length of each component of a diagonal unit direction scaled to `s`:
/// the largest `c` with `c * sqrt(2) <= s`.
pub open spec fn is_diagonal_leg(c: int, s: int) -> bool {
    0 <= c && 2 * (c * c) <= s * s < 2 * ((c + 1) * (c + 1))
}

/// The diagonal leg for travel `s`.
pub open spec fn diagonal_leg(s: int) -> int {
    choose|c: int| is_diagonal_leg(c, s)
}

/// Displacement of one frame: the raw direction normalized to unit length (zero stays zero),
/// scaled by speed and elapsed time, rounded down in magnitude.
pub open spec fn displacement(input: MoveInput, speed: int, dt_us: int) -> (int, int) {
    let dx = axis_of(input.right, input.left);
    let dy = axis_of(input.up, input.down);
    let s = travel(speed, dt_us);
    if dx != 0 && dy != 0 {
        let c = diagonal_leg(s);
        (dx * c, dy * c)
    } else {
        (dx * s, dy * s)
    }
}

/// The player after one frame of movement: only the planar position changes.
pub open spec fn moved(p: Player, input: MoveInput, dt_us: int) -> (int, int) {
    let d = displacement(input, p.movement_speed as int, dt_us);
    (p.x + d.0, p.y + d.1)
}

/// Whether one frame of movement keeps the position within `i64`.
pub open spec fn move_fits(p: Player, input: MoveInput, dt_us: int) -> bool {
    let m = moved(p, input, dt_us);
    i64::MIN <= m.0 <= i64::MAX && i64::MIN <= m.1 <= i64::MAX
}

/// The planar position after a sequence of frames, each a set of held keys and a duration.
pub open spec fn walk(x: int, y: int, speed: int, frames: Seq<(MoveInput, int)>) -> (int, int)
    decreases frames.len(),
{
    if frames.len() == 0 {
        (x, y)
    } else {
        let d = displacement(frames[0].0, speed, frames[0].1);
        walk(x + d.0, y + d.1, speed, frames.drop_first())
    }
}

/// Holding both keys of an opposing pair gives no movement along that axis.
pub proof fn lemma_opposing_keys_cancel(input: MoveInput, speed: int, dt_us: int)
    ensures
        input.up && input.down ==> displacement(input, speed, dt_us).1 == 0,
        input.left && input.right ==> displacement(input, speed, dt_us).0 == 0,
{
}

/// Holding up and right together moves diagonally: both components have the same size, and
/// the move is no longer than a straight one (the direction is normalized before scaling).
pub proof fn lemma_diagonal_is_normalized(input: MoveInput, speed: int, dt_us: int)
    requires
        input.up && input.right && !input.down && !input.left,
        0 <= speed,
        0 <= dt_us,
    ensures
        ({
            let d = displacement(input, speed, dt_us);
            let s = travel(speed, dt_us);
            &&& d.0 == d.1
            &&& d.0 >= 0
            &&& d.0 * d.0 + d.1 * d.1 <= s * s
            &&& s * s < 2 * ((d.0 + 1) * (d.0 + 1))
        }),
{
    let s = travel(speed, dt_us);
    assert(0 <= speed * dt_us) by (nonlinear_arith)
        requires
            0 <= speed,
            0 <= dt_us,
    ;
    assert(s >= 0);
    lemma_leg_exists(s);
    let c = diagonal_leg(s);
    assert(axis_of(input.right, input.left) == 1);
    assert(axis_of(input.up, input.down) == 1);
    assert(displacement(input, speed, dt_us) == (c, c));
    assert(c * c + c * c == 2 * (c * c));
}

/// With no key held the player does not move, however many frames pass.
pub proof fn lemma_idle_frames_keep_position(x: int, y: int, speed: int, frames: Seq<(MoveInput, int)>)
    requires
        forall|i: int| 0 <= i < frames.len() ==> frames[i].0.is_idle(),
    ensures
        walk(x, y, speed, frames) == (x, y),
    decreases frames.len(),
{
    if frames.len() > 0 {
        let rest = frames.drop_first();
        assert forall|i: int| 0 <= i < rest.len() implies rest[i].0.is_idle() by {
            assert(rest[i] == frames[i + 1]);
        }
        assert(frames[0].0.is_idle());
        lemma_idle_frames_keep_position(x, y, speed, rest);
    }
}

/// Every non-negative travel has a diagonal leg.
proof fn lemma_leg_exists(s: int)
    requires
        0 <= s,
    ensures
        is_diagonal_leg(diagonal_leg(s), s),
    decreases s,
{
    if s == 0 {
        assert(is_diagonal_leg(0, 0));
    } else {
        lemma_leg_exists(s - 1);
        let c = diagonal_leg(s - 1);
        assert(2 * (c * c) <= s * s) by (nonlinear_arith)
            requires
                2 * (c * c) <= (s - 1) * (s - 1),
                s >= 1,
        ;
        if s * s < 2 * ((c + 1) * (c + 1)) {
            assert(is_diagonal_leg(c, s));
        } else {
            assert(s * s < 2 * ((c + 2) * (c + 2))) by (nonlinear_arith)
                requires
                    (s - 1) * (s - 1) < 2 * ((c + 1) * (c + 1)),
                    c >= 0,
                    s >= 1,
            ;
            assert(is_diagonal_leg(c + 1, s));
        }
    }
}

proof fn lemma_leg_unique(a: int, b: int, s: int)
    requires
        is_diagonal_leg(a, s),
        is_diagonal_leg(b, s),
    ensures
        a == b,
{
    if a < b {
        assert(2 * ((a + 1) * (a + 1)) <= 2 * (b * b)) by (nonlinear_arith)
            requires 0 <= a, a + 1 <= b;
    } else if b < a {
        assert(2 * ((b + 1) * (b + 1)) <= 2 * (a * a)) by (nonlinear_arith)
            requires 0 <= b, b + 1 <= a;
    }
}

proof fn lemma_leg_is(c: int, s: int)
    requires
        is_diagonal_leg(c, s),
    ensures
        diagonal_leg(s) == c,
{
    let d = diagonal_leg(s);
    assert(is_diagonal_leg(d, s));
    lemma_leg_unique(c, d, s);
}

proof fn lemma_unit_scale(d: int, s: int)
    requires
        -1 <= d <= 1,
        0 <= s < 0x2000_0000_0000,
    ensures
        -0x2000_0000_0000 < d * s < 0x2000_0000_0000,
{
    assert(-0x2000_0000_0000 < d * s < 0x2000_0000_0000) by (nonlinear_arith)
        requires
            -1 <= d <= 1,
            0 <= s < 0x2000_0000_0000,
    ;
}

/// Raw planar direction: up/down on y, right/left on x, each in -1..=1.
pub fn raw_direction(input: MoveInput) -> (r: (i8, i8))
    ensures
        r.0 as int == axis_of(input.right, input.left),
        r.1 as int == axis_of(input.up, input.down),
{
    let mut x: i8 = 0;
    let mut y: i8 = 0;
    if input.up {
        y = y + 1;
    }
    if input.down {
        y = y - 1;
    }
    if input.left {
        x = x - 1;
    }
    if input.right {
        x = x + 1;
    }
    (x, y)
}

/// Distance covered in `dt_us` microseconds at `speed` units per second.
pub fn travel_distance(speed: u32, dt_us: u32) -> (r: u64)
    ensures
        r as int == travel(speed as int, dt_us as int),
        r < 0x2000_0000_0000,
{
    assert((speed as int) * (dt_us as int) < 0x1_0000_0000_0000_0000) by (nonlinear_arith)
        requires
            0 <= speed < 0x1_0000_0000,
            0 <= dt_us < 0x1_0000_0000,
    ;
    let prod: u64 = speed as u64 * dt_us as u64;
    prod / MICROS_PER_SECOND
}

/// Each component of a diagonal move of length `s`: `s / sqrt(2)`, rounded down.
pub fn diagonal_component(s: u64) -> (c: u64)
    requires
        s < 0x2000_0000_0000,
    ensures
        is_diagonal_leg(c as int, s as int),
        c as int == diagonal_leg(s as int),
{
    assert((s as int) * (s as int) <= 0x1_0000_0000_0000_0000_0000_0000) by (nonlinear_arith)
        requires
            0 <= s < 0x2000_0000_0000,
    ;
    let ss: u128 = s as u128 * s as u128;
    let mut lo: u64 = 0;
    let mut hi: u64 = s + 1;
    assert(2 * ((s as int + 1) * (s as int + 1)) > s as int * s as int) by (nonlinear_arith);
    while hi - lo > 1
        invariant
            lo < hi <= s + 1,
            s < 0x2000_0000_0000,
            ss == s as int * s as int,
            2 * (lo as int * lo as int) <= ss,
            2 * (hi as int * hi as int) > ss,
        decreases hi - lo,
    {
        let mid: u64 = lo + (hi - lo) / 2;
        assert((mid as int) * (mid as int) <= 0x1_0000_0000_0000_0000_0000_0000) by (nonlinear_arith)
            requires
                0 <= mid <= 0x2000_0000_0000,
        ;
        let mm: u128 = mid as u128 * mid as u128;
        let m2: u128 = 2 * mm;
        if m2 <= ss {
            lo = mid;
        } else {
            hi = mid;
        }
    }
    assert(hi == lo + 1);
    proof {
        lemma_leg_is(lo as int, s as int);
    }
    lo
}

/// Planar displacement of one frame for the held keys, at `speed` units per second.
pub fn frame_displacement(input: MoveInput, speed: u32, dt_us: u32) -> (r: (i64, i64))
    ensures
        (r.0 as int, r.1 as int) == displacement(input, speed as int, dt_us as int),
{
    let (dx, dy) = raw_direction(input);
    let s = travel_distance(speed, dt_us);
    if dx != 0 && dy != 0 {
        let c = diagonal_component(s);
        proof {
            assert(c as int <= s as int) by (nonlinear_arith)
                requires 2 * (c * c) <= s * s, 0 <= c, 0 <= s;
        }
        proof {
            lemma_unit_scale(dx as int, c as int);
            lemma_unit_scale(dy as int, c as int);
        }
        (dx as i64 * c as i64, dy as i64 * c as i64)
    } else {
        proof {
            lemma_unit_scale(dx as int, s as int);
            lemma_unit_scale(dy as int, s as int);
        }
        (dx as i64 * s as i64, dy as i64 * s as i64)
    }
}

/// Moves the player by one frame of held keys over `dt_us` microseconds.
/// The depth and the speed are untouched.
pub fn update_player(player: &mut Player, input: MoveInput, dt_us: u32)
    requires
        move_fits(*old(player), input, dt_us as int),
    ensures
        (final(player).x as int, final(player).y as int) == moved(*old(player), input, dt_us as int),
        final(player).z == old(player).z,
        final(player).movement_speed == old(player).movement_speed,
{
    let (dx, dy) = frame_displacement(input, player.movement_speed, dt_us);
    player.x = player.x + dx;
    player.y = player.y + dy;
}

} // verus!
