use vstd::prelude::*;
use crate::measure::{MAX_COORD, MAX_JITTER, MAX_SPEED, div_toward_zero, mag, quot};
use vstd::arithmetic::div_mod::{lemma_fundamental_div_mod, lemma_fundamental_div_mod_converse};

verus! {

/// Downward acceleration acting on arrows (mm/s²).
pub const GRAVITY: i64 = 9800;

/// Flight time used when the estimate is undefined or too long (ms); also the
/// bound that every estimate is clamped to.
pub const MAX_FLIGHT_TIME: i64 = 20000;

/// Band of the multiplier applied to an arrow's nominal speed, in thousandths.
pub const SPEED_JITTER_MIN: i64 = 850;
pub const SPEED_JITTER_MAX: i64 = 1150;

/// Multipliers, in thousandths, that perturb one shot: `speed` scales the
/// nominal arrow speed and `time` scales the estimated flight time.
#[derive(Clone, Copy, Debug, PartialEq, Eq, Structural)]
pub struct Jitter {
    pub speed: i64,
    pub time: i64,
}

/// Largest aim spread of a bow, in thousandths.
pub const MAX_SPREAD: i64 = 1000000;

/// Lower end of the flight-time multiplier band for a bow of spread
/// `spread`; the band is `spread` wide.
pub open spec fn time_jitter_low(spread: int) -> int {
    1000 - spread / 4
}

/// `j` lies in the bands that a shot of a bow with spread `spread` draws from.
pub open spec fn jitter_in_band(j: Jitter, spread: int) -> bool {
    &&& SPEED_JITTER_MIN <= j.speed <= SPEED_JITTER_MAX
    &&& time_jitter_low(spread) <= j.time <= time_jitter_low(spread) + spread
}

/// Relies on fastrand::i64: a value from the inclusive range `lo..=hi`,
/// which it panics on only when the range is empty.
#[verifier::external_body]
fn random_between(lo: i64, hi: i64) -> (r: i64)
    requires
        lo <= hi,
    ensures
        lo <= r <= hi,
{
    fastrand::i64(lo..=hi)
}

/// Draws the perturbation of one shot of a bow with spread `spread`.
pub fn draw_jitter(spread: i64) -> (r: Jitter)
    requires
        0 <= spread <= MAX_SPREAD,
    ensures
        jitter_in_band(r, spread as int),
        0 <= r.speed <= MAX_JITTER,
        mag(r.time as int) <= MAX_JITTER,
{
    let speed = random_between(SPEED_JITTER_MIN, SPEED_JITTER_MAX);
    let low = 1000 - spread / 4;
    let time = random_between(low, low + spread);
    Jitter { speed, time }
}

/// The jitter of a perfectly steady shot.
pub fn steady() -> (r: Jitter)
    ensures
        r.speed == 1000,
        r.time == 1000,
{
    Jitter { speed: 1000, time: 1000 }
}

/// Launch velocity of an arrow (mm/s) and the flight time it was aimed for (ms).
#[derive(Clone, Copy, Debug, PartialEq, Eq, Structural)]
pub struct Launch {
    pub vx: i64,
    pub vy: i64,
    pub flight_time: i64,
}

/// Direction of a horizontal offset: a zero offset counts as forward.
pub open spec fn direction(d: int) -> int {
    if d < 0 {
        -1
    } else {
        1
    }
}

pub open spec fn jittered_speed(nominal: int, speed_jitter: int) -> int {
    nominal * speed_jitter / 1000
}

/// Horizontal launch velocity: the jittered speed toward the target.
pub open spec fn launch_vx(diff_x: int, nominal: int, speed_jitter: int) -> int {
    direction(diff_x) * jittered_speed(nominal, speed_jitter)
}

/// Keeps an estimate away from zero and within the flight bound.
pub open spec fn clamp_flight(t: int) -> int {
    if t == 0 {
        1
    } else if t > MAX_FLIGHT_TIME {
        MAX_FLIGHT_TIME as int
    } else if t < -MAX_FLIGHT_TIME {
        -MAX_FLIGHT_TIME
    } else {
        t
    }
}

/// Estimated flight time: horizontal gap over closing speed, scaled by the
/// time jitter. A closing speed of zero has no finite estimate.
pub open spec fn flight_time(diff_x: int, closing: int, time_jitter: int) -> int {
    if closing == 0 {
        MAX_FLIGHT_TIME as int
    } else {
        clamp_flight(quot(diff_x * time_jitter, closing))
    }
}

/// Vertical launch velocity that meets the target height after `t` ms:
/// `diff_y / t + g * t / 2`.
pub open spec fn launch_vy(diff_y: int, t: int) -> int {
    quot(diff_y * 1000, t) + quot(GRAVITY * t, 2000)
}

pub open spec fn spec_aim(
    diff_x: int,
    diff_y: int,
    target_vx: int,
    nominal: int,
    jitter: Jitter,
) -> Launch {
    let vx = launch_vx(diff_x, nominal, jitter.speed as int);
    let t = flight_time(diff_x, vx - target_vx, jitter.time as int);
    Launch { vx: vx as i64, vy: launch_vy(diff_y, t) as i64, flight_time: t as i64 }
}

pub open spec fn aim_inputs_ok(
    diff_x: int,
    diff_y: int,
    target_vx: int,
    nominal: int,
    jitter: Jitter,
) -> bool {
    &&& mag(diff_x) <= 2 * MAX_COORD
    &&& mag(diff_y) <= 2 * MAX_COORD
    &&& mag(target_vx) <= MAX_SPEED
    &&& 0 <= nominal <= MAX_SPEED
    &&& 0 <= jitter.speed <= MAX_JITTER
    &&& mag(jitter.time as int) <= MAX_JITTER
}

/// Launch velocity that leads a target moving at `target_vx`, from an offset
/// `(diff_x, diff_y)` between muzzle and target, for an arrow of nominal
/// speed `nominal`, perturbed by `jitter`.
pub fn aim(diff_x: i64, diff_y: i64, target_vx: i64, nominal: i64, jitter: Jitter) -> (r: Launch)
    requires
        aim_inputs_ok(diff_x as int, diff_y as int, target_vx as int, nominal as int, jitter),
    ensures
        r == spec_aim(diff_x as int, diff_y as int, target_vx as int, nominal as int, jitter),
        r.flight_time != 0,
        mag(r.flight_time as int) <= MAX_FLIGHT_TIME,
        mag(r.vx as int) <= 1000 * MAX_SPEED,
        mag(r.vy as int) <= 2001 * MAX_COORD,
{
    assert(0 <= nominal * jitter.speed <= MAX_SPEED * MAX_JITTER) by (nonlinear_arith)
        requires
            0 <= nominal <= MAX_SPEED,
            0 <= jitter.speed <= MAX_JITTER,
    ;
    let speed = nominal * jitter.speed / 1000;
    let vx: i64 = if diff_x < 0 {
        -speed
    } else {
        speed
    };
    let closing = vx - target_vx;
    let t: i64 = if closing == 0 {
        MAX_FLIGHT_TIME
    } else {
        assert(mag(diff_x * jitter.time) <= 2 * MAX_COORD * MAX_JITTER) by (nonlinear_arith)
            requires
                mag(diff_x as int) <= 2 * MAX_COORD,
                mag(jitter.time as int) <= MAX_JITTER,
        ;
        let raw = div_toward_zero(diff_x * jitter.time, closing);
        if raw == 0 {
            1
        } else if raw > MAX_FLIGHT_TIME {
            MAX_FLIGHT_TIME
        } else if raw < -MAX_FLIGHT_TIME {
            -MAX_FLIGHT_TIME
        } else {
            raw
        }
    };
    let rise = div_toward_zero(diff_y * 1000, t);
    let sag = div_toward_zero(GRAVITY * t, 2000);
    assert(mag(rise as int) <= 1000 * 2 * MAX_COORD);
    assert(mag(sag as int) <= MAX_COORD);
    Launch { vx, vy: rise + sag, flight_time: t }
}

/// Rounding toward zero is exact on a multiple of a positive divisor.
proof fn lemma_quot_exact(a: int, t: int)
    requires
        t > 0,
        a % t == 0,
    ensures
        quot(a, t) * t == a,
{
    lemma_fundamental_div_mod(a, t);
    if a < 0 {
        let q = a / t;
        assert(-a == (-q) * t + 0) by (nonlinear_arith)
            requires
                a == t * q,
        ;
        lemma_fundamental_div_mod_converse(-a, t, -q, 0);
        assert(quot(a, t) == q);
    } else {
        assert(quot(a, t) == a / t);
    }
    assert(quot(a, t) * t == a) by (nonlinear_arith)
        requires
            a == t * (a / t) + 0,
            quot(a, t) == a / t,
    ;
}

/// Ballistic symmetry: against a stationary target and without jitter, the
/// flight time is positive, and the vertical launch velocity `vy` meets the
/// target height `diff_y` after that flight time `t` on the parabola
/// `diff_y = vy·t − g·t²/2` (here in mm, mm/s and ms, scaled by 2·10⁶ so that
/// no division is left), wherever the two divisions that produce `vy` come
/// out exact.
pub proof fn lemma_launch_meets_target_height(diff_x: int, diff_y: int, nominal: int)
    requires
        aim_inputs_ok(diff_x, diff_y, 0, nominal, Jitter { speed: 1000, time: 1000 }),
        ({
            let t = spec_aim(diff_x, diff_y, 0, nominal, Jitter { speed: 1000, time: 1000 }).flight_time as int;
            (diff_y * 1000) % t == 0 && (GRAVITY * t) % 2000 == 0
        }),
    ensures
        ({
            let r = spec_aim(diff_x, diff_y, 0, nominal, Jitter { speed: 1000, time: 1000 });
            &&& r.flight_time > 0
            &&& 2000000 * diff_y == 2000 * (r.vy as int) * (r.flight_time as int) - GRAVITY * (
            r.flight_time as int) * (r.flight_time as int)
        }),
{
    let jitter = Jitter { speed: 1000, time: 1000 };
    let speed = jittered_speed(nominal, 1000);
    assert(speed == nominal) by (nonlinear_arith)
        requires
            speed == nominal * 1000 / 1000,
    ;
    let vx = launch_vx(diff_x, nominal, 1000);
    let t = flight_time(diff_x, vx - 0, 1000);
    if vx != 0 {
        let raw = quot(diff_x * 1000, vx);
        assert(raw >= 0) by (nonlinear_arith)
            requires
                raw == quot(diff_x * 1000, vx),
                diff_x < 0 ==> vx < 0,
                diff_x >= 0 ==> vx >= 0,
                mag(diff_x * 1000) >= 0,
                mag(vx) > 0,
        {
            assert(mag(diff_x * 1000) / mag(vx) >= 0) by (nonlinear_arith)
                requires
                    mag(diff_x * 1000) >= 0,
                    mag(vx) > 0,
            ;
        }
    }
    assert(t > 0);
    let a = diff_y * 1000;
    let b = GRAVITY * t;
    lemma_quot_exact(a, t);
    lemma_quot_exact(b, 2000);
    let vy = launch_vy(diff_y, t);
    let r = spec_aim(diff_x, diff_y, 0, nominal, jitter);
    assert(mag(vy) <= 2001 * MAX_COORD) by {
        assert(mag(quot(a, t)) <= mag(a)) by (nonlinear_arith)
            requires
                t > 0,
                quot(a, t) * t == a,
        ;
    }
    assert(r.vy as int == vy);
    assert(r.flight_time as int == t);
    assert(2000000 * diff_y == 2000 * vy * t - GRAVITY * t * t) by (nonlinear_arith)
        requires
            vy == quot(a, t) + quot(b, 2000),
            quot(a, t) * t == a,
            quot(b, 2000) * 2000 == b,
            a == diff_y * 1000,
            b == GRAVITY * t,
    ;
}

} // verus!
