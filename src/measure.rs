use vstd::prelude::*;

verus! {

/// Largest distance from the lane origin that any body reaches (mm).
pub const MAX_COORD: i64 = 1000000000;

/// Largest walking speed, nominal arrow speed or target speed (mm/s).
pub const MAX_SPEED: i64 = 1000000;

/// Largest magnitude of a jitter multiplier, in thousandths.
pub const MAX_JITTER: i64 = 1000000;

/// Largest speed an arrow can carry (mm/s).
pub const MAX_ARROW_SPEED: i64 = 4000000000000;

/// Longest tick the simulation accepts (ms).
pub const MAX_TICK: u64 = 1000000;

pub open spec fn mag(a: int) -> int {
    if a < 0 {
        -a
    } else {
        a
    }
}

/// Integer division rounding toward zero.
pub open spec fn quot(a: int, b: int) -> int {
    if (a < 0) == (b < 0) {
        mag(a) / mag(b)
    } else {
        -(mag(a) / mag(b))
    }
}

/// `v` kept within `[-bound, bound]`.
pub open spec fn clamped(v: int, bound: int) -> int {
    if v > bound {
        bound
    } else if v < -bound {
        -bound
    } else {
        v
    }
}

/// Rounds toward zero, for operands of magnitude below `i64::MAX`.
pub fn div_toward_zero(a: i64, b: i64) -> (r: i64)
    requires
        b != 0,
        a > i64::MIN,
        b > i64::MIN,
    ensures
        r == quot(a as int, b as int),
        mag(r as int) <= mag(a as int),
{
    let ma: i64 = if a < 0 {
        -a
    } else {
        a
    };
    let mb: i64 = if b < 0 {
        -b
    } else {
        b
    };
    let q = ma / mb;
    assert(q <= ma) by (nonlinear_arith)
        requires
            q == ma / mb,
            ma >= 0,
            mb > 0,
    ;
    if (a < 0) == (b < 0) {
        q
    } else {
        -q
    }
}

pub fn clamp(v: i64, bound: i64) -> (r: i64)
    requires
        bound >= 0,
    ensures
        r == clamped(v as int, bound as int),
{
    if v > bound {
        bound
    } else if v < -bound {
        -bound
    } else {
        v
    }
}

/// Distance covered in `dt` ms at `v` mm/s, rounded toward zero.
pub open spec fn displacement(v: int, dt: int) -> int {
    quot(v * dt, 1000)
}

pub fn displace(v: i64, dt: u64) -> (r: i64)
    requires
        mag(v as int) <= MAX_ARROW_SPEED,
        dt <= MAX_TICK,
    ensures
        r == displacement(v as int, dt as int),
        mag(r as int) <= mag(v as int) * MAX_TICK / 1000,
{
    let d = dt as i64;
    assert(mag(v * d) <= MAX_ARROW_SPEED * MAX_TICK) by (nonlinear_arith)
        requires
            mag(v as int) <= MAX_ARROW_SPEED,
            0 <= d <= MAX_TICK,
    ;
    let r = div_toward_zero(v * d, 1000);
    assert(mag(v * d) == mag(v as int) * d) by (nonlinear_arith)
        requires
            0 <= d,
    ;
    assert(mag(r as int) <= mag(v as int) * MAX_TICK / 1000) by (nonlinear_arith)
        requires
            r == quot(v * d, 1000),
            0 <= d <= MAX_TICK,
            mag(r as int) == mag(v * d) / 1000,
            mag(v * d) == mag(v as int) * d,
    ;
    r
}

} // verus!
