//! Fixed-point scalar kernel: integer square root, sine, cosine and a
//! two-argument arctangent over micro-turn angles.
//!
//! Angles are measured in micro-turns: `FULL_TURN` units make one full
//! revolution, so periodicity is exact.  Sine and cosine return values in
//! `[-TRIG_SCALE, TRIG_SCALE]`; the curve between the exact quadrant points
//! is a rational approximation.

use vstd::prelude::*;

verus! {

use vstd::arithmetic::div_mod::{
    lemma_fundamental_div_mod,
    lemma_mod_add_multiples_vanish,
    lemma_mod_multiples_vanish,
    lemma_mod_division_less_than_divisor,
    lemma_small_mod,
    lemma_add_mod_noop,
    lemma_div_is_ordered,
    lemma_div_multiples_vanish,
    lemma_div_pos_is_pos,
};

/// Angle units in one full revolution.
pub const FULL_TURN: i64 = 1_000_000;
/// Angle units in half a revolution.
pub const HALF_TURN: i64 = 500_000;
/// Angle units in a quarter revolution.
pub const QUARTER_TURN: i64 = 250_000;
/// Scale of sine and cosine values: results range over `[-TRIG_SCALE, TRIG_SCALE]`.
pub const TRIG_SCALE: i64 = 1000;
/// Largest angle magnitude, in micro-turns, accepted by the executable
/// trigonometric routines.
pub const ANGLE_LIMIT: i64 = 2_000_000_000_000_000_000;
/// Largest coordinate difference accepted by the bearing routine.
pub const BEARING_LIMIT: i64 = 2_000_000_000_000_000;
/// Largest argument accepted by the executable integer square root.
pub const SQRT_LIMIT: u64 = 10_000_000_000_000_000;

/// Floor of the square root of `n`.
pub open spec fn isqrt_spec(n: nat) -> nat
    decreases n,
{
    if n == 0 {
        0
    } else {
        let r = isqrt_spec((n - 1) as nat);
        if (r + 1) * (r + 1) <= n {
            r + 1
        } else {
            r
        }
    }
}

/// `isqrt_spec(n)` is the unique integer whose square is at most `n` while
/// the next square is beyond `n`.
pub proof fn lemma_isqrt_spec_bounds(n: nat)
    ensures
        isqrt_spec(n) * isqrt_spec(n) <= n,
        n < (isqrt_spec(n) + 1) * (isqrt_spec(n) + 1),
    decreases n,
{
    if n == 0 {
        assert(isqrt_spec(n) == 0);
        assert((isqrt_spec(n) + 1) * (isqrt_spec(n) + 1) == 1) by (nonlinear_arith)
            requires isqrt_spec(n) == 0,
        ;
    } else {
        lemma_isqrt_spec_bounds((n - 1) as nat);
        let r = isqrt_spec((n - 1) as nat);
        assert(r * r <= n - 1);
        assert(n - 1 < (r + 1) * (r + 1));
        if (r + 1) * (r + 1) <= n {
            assert(isqrt_spec(n) == r + 1);
            assert(n <= (r + 1) * (r + 1));
            assert((r + 1) * (r + 1) < (r + 2) * (r + 2)) by (nonlinear_arith)
                requires r >= 0,
            ;
            assert(n < (r + 2) * (r + 2));
            assert((isqrt_spec(n) + 1) * (isqrt_spec(n) + 1) == (r + 2) * (r + 2));
        } else {
            assert(isqrt_spec(n) == r);
            assert(n < (isqrt_spec(n) + 1) * (isqrt_spec(n) + 1));
        }
    }
}

/// Any integer bracketed by the same pair of squares as `isqrt_spec(n)` is
/// `isqrt_spec(n)` itself.
proof fn lemma_isqrt_unique(n: nat, a: nat, b: nat)
    requires
        a * a <= n,
        n < (a + 1) * (a + 1),
        b * b <= n,
        n < (b + 1) * (b + 1),
    ensures
        a == b,
{
    if a < b {
        assert((a + 1) * (a + 1) <= b * b) by (nonlinear_arith)
            requires a + 1 <= b,
        ;
    }
    if b < a {
        assert((b + 1) * (b + 1) <= a * a) by (nonlinear_arith)
            requires b + 1 <= a,
        ;
    }
}

/// Floor of the square root, by bisection.
pub fn isqrt(n: u64) -> (r: u64)
    requires
        n <= SQRT_LIMIT,
    ensures
        r == isqrt_spec(n as nat),
        r * r <= n < (r + 1) * (r + 1),
        r <= 100_000_000,
{
    let mut lo: u64 = 0;
    let mut hi: u64 = 100_000_001;
    assert(n < 100_000_001u64 * 100_000_001u64) by (nonlinear_arith)
        requires n <= SQRT_LIMIT,
    ;
    while lo + 1 < hi
        invariant
            lo < hi <= 100_000_001,
            lo * lo <= n,
            n < hi * hi,
        decreases hi - lo,
    {
        let mid: u64 = lo + (hi - lo) / 2;
        assert(lo < mid < hi);
        assert(mid * mid <= 100_000_001u64 * 100_000_001u64) by (nonlinear_arith)
            requires mid <= 100_000_001,
        ;
        if mid * mid <= n {
            lo = mid;
        } else {
            hi = mid;
        }
    }
    proof {
        lemma_isqrt_spec_bounds(n as nat);
        lemma_isqrt_unique(n as nat, lo as nat, isqrt_spec(n as nat));
    }
    lo
}

/// Sine over the first half turn, scaled by `TRIG_SCALE`: a rational
/// approximation that is exact at 0, at the quarter turn and at the half
/// turn, and stays within `[0, TRIG_SCALE]` in between.
pub open spec fn sin_half_spec(t: int) -> int {
    (16 * t * (HALF_TURN - t) * TRIG_SCALE)
        / (5 * HALF_TURN * HALF_TURN - 4 * t * (HALF_TURN - t))
}

/// Sine of an angle in micro-turns, scaled by `TRIG_SCALE`.
pub open spec fn sin_spec(a: int) -> int {
    let r = a % (FULL_TURN as int);
    if r < HALF_TURN {
        sin_half_spec(r)
    } else {
        -sin_half_spec(r - HALF_TURN)
    }
}

/// Cosine of an angle in micro-turns, scaled by `TRIG_SCALE`.
pub open spec fn cos_spec(a: int) -> int {
    sin_spec(a + QUARTER_TURN)
}

/// On `[0, HALF_TURN]` the half-turn sine stays within `[0, TRIG_SCALE]`.
pub proof fn lemma_sin_half_bounds(t: int)
    requires
        0 <= t <= HALF_TURN,
    ensures
        0 <= sin_half_spec(t) <= TRIG_SCALE,
{
    let num = 16 * t * (HALF_TURN - t) * TRIG_SCALE;
    let den = 5 * HALF_TURN * HALF_TURN - 4 * t * (HALF_TURN - t);
    assert(num >= 0 && den >= 1_000_000_000_000 && num <= 1000 * den) by (nonlinear_arith)
        requires
            0 <= t <= 500_000,
            num == 16 * t * (500_000 - t) * 1000,
            den == 5 * 500_000 * 500_000 - 4 * t * (500_000 - t),
    ;
    lemma_div_pos_is_pos(num, den);
    lemma_div_is_ordered(num, 1000 * den, den);
    lemma_div_multiples_vanish(1000, den);
    assert(sin_half_spec(t) == num / den);
}

/// Sine stays within `[-TRIG_SCALE, TRIG_SCALE]` everywhere.
pub proof fn lemma_sin_bounds(a: int)
    ensures
        -TRIG_SCALE <= sin_spec(a) <= TRIG_SCALE,
{
    let r = a % (FULL_TURN as int);
    lemma_mod_division_less_than_divisor(a, FULL_TURN as int);
    if r < HALF_TURN {
        lemma_sin_half_bounds(r);
    } else {
        lemma_sin_half_bounds(r - HALF_TURN);
    }
}

/// Cosine stays within `[-TRIG_SCALE, TRIG_SCALE]` everywhere.
pub proof fn lemma_cos_bounds(a: int)
    ensures
        -TRIG_SCALE <= cos_spec(a) <= TRIG_SCALE,
{
    lemma_sin_bounds(a + QUARTER_TURN);
}

/// Sine has period `FULL_TURN` exactly.
pub proof fn lemma_sin_periodic(a: int)
    ensures
        sin_spec(a + FULL_TURN) == sin_spec(a),
{
    lemma_mod_add_multiples_vanish(a, FULL_TURN as int);
}

/// Cosine has period `FULL_TURN` exactly.
pub proof fn lemma_cos_periodic(a: int)
    ensures
        cos_spec(a + FULL_TURN) == cos_spec(a),
{
    lemma_sin_periodic(a + QUARTER_TURN);
}

/// Reduce an angle into `[0, FULL_TURN)`; the result is the Euclidean
/// remainder of the angle by `FULL_TURN`.
pub fn reduce_angle(a: i64) -> (r: i64)
    requires
        -ANGLE_LIMIT <= a <= ANGLE_LIMIT,
    ensures
        0 <= r < FULL_TURN,
        r == a as int % (FULL_TURN as int),
{
    let ft: u64 = 1_000_000;
    if a >= 0 {
        let m: u64 = (a as u64) % ft;
        proof {
            lemma_mod_division_less_than_divisor(a as int, FULL_TURN as int);
        }
        m as i64
    } else {
        let m: u64 = ((-a) as u64) % ft;
        proof {
            let b = (-a) as int;
            lemma_fundamental_div_mod(b, FULL_TURN as int);
            let q = b / (FULL_TURN as int);
            let md = b % (FULL_TURN as int);
            lemma_mod_division_less_than_divisor(b, FULL_TURN as int);
            if md == 0 {
                // a == FULL_TURN * (-q), so the remainder vanishes
                lemma_mod_multiples_vanish(-q, 0, FULL_TURN as int);
                lemma_small_mod(0nat, FULL_TURN as nat);
            } else {
                // a == FULL_TURN * (-q - 1) + (FULL_TURN - md)
                lemma_mod_multiples_vanish(-q - 1, FULL_TURN - md, FULL_TURN as int);
                lemma_small_mod((FULL_TURN - md) as nat, FULL_TURN as nat);
            }
        }
        if m == 0 {
            0
        } else {
            (ft - m) as i64
        }
    }
}

/// Sine of an angle in micro-turns, scaled by `TRIG_SCALE`.
pub fn fp_sin(a: i64) -> (r: i64)
    requires
        -ANGLE_LIMIT <= a <= ANGLE_LIMIT,
    ensures
        r == sin_spec(a as int),
        -TRIG_SCALE <= r <= TRIG_SCALE,
{
    let red: i64 = reduce_angle(a);
    proof {
        lemma_sin_bounds(a as int);
    }
    if red < HALF_TURN {
        sin_half(red)
    } else {
        -sin_half(red - HALF_TURN)
    }
}

/// Cosine of an angle in micro-turns, scaled by `TRIG_SCALE`.
pub fn fp_cos(a: i64) -> (r: i64)
    requires
        -ANGLE_LIMIT <= a <= ANGLE_LIMIT,
    ensures
        r == cos_spec(a as int),
        -TRIG_SCALE <= r <= TRIG_SCALE,
{
    let red: i64 = reduce_angle(a);
    proof {
        lemma_add_mod_noop(a as int, QUARTER_TURN as int, FULL_TURN as int);
        lemma_small_mod(QUARTER_TURN as nat, FULL_TURN as nat);
        lemma_mod_division_less_than_divisor(red + QUARTER_TURN, FULL_TURN as int);
        assert((red + QUARTER_TURN) % (FULL_TURN as int)
            == (a as int + QUARTER_TURN) % (FULL_TURN as int));
    }
    fp_sin(red + QUARTER_TURN)
}

/// Absolute value of a mathematical integer.
pub open spec fn iabs(x: int) -> int {
    if x < 0 {
        -x
    } else {
        x
    }
}

/// Arctangent over the first octant: `z` is a ratio scaled by `TRIG_SCALE`
/// with `0 <= z <= TRIG_SCALE`; the result is an angle in micro-turns within
/// `[0, FULL_TURN / 8]`, exact at both ends.
pub open spec fn atan_octant_spec(z: int) -> int {
    125 * z + (43449 * z * (1000 - z)) / 1_000_000
}

/// Bearing of the vector `(dx, dy)` in micro-turns, within
/// `[-HALF_TURN, HALF_TURN]`; the zero vector maps to 0.
pub open spec fn bearing_spec(dy: int, dx: int) -> int {
    if dx == 0 && dy == 0 {
        0
    } else {
        let ax = iabs(dx);
        let ay = iabs(dy);
        let base = if ay <= ax {
            atan_octant_spec((ay * 1000) / ax)
        } else {
            QUARTER_TURN - atan_octant_spec((ax * 1000) / ay)
        };
        if dy >= 0 {
            if dx >= 0 {
                base
            } else {
                HALF_TURN - base
            }
        } else {
            if dx >= 0 {
                -base
            } else {
                base - HALF_TURN
            }
        }
    }
}

/// The octant arctangent stays within `[0, FULL_TURN / 8]`.
pub proof fn lemma_atan_octant_bounds(z: int)
    requires
        0 <= z <= 1000,
    ensures
        0 <= atan_octant_spec(z) <= 125_000,
{
    let num = 43449 * z * (1000 - z);
    assert(0 <= num && num <= 125_000_000 * (1000 - z)) by (nonlinear_arith)
        requires
            0 <= z <= 1000,
            num == 43449 * z * (1000 - z),
    ;
    lemma_div_pos_is_pos(num, 1_000_000);
    lemma_div_is_ordered(num, 125_000_000 * (1000 - z), 1_000_000);
    lemma_div_multiples_vanish(125 * (1000 - z), 1_000_000);
    assert(125_000_000 * (1000 - z) == 1_000_000 * (125 * (1000 - z)));
}

/// The bearing stays within `[-HALF_TURN, HALF_TURN]`.
pub proof fn lemma_bearing_bounds(dy: int, dx: int)
    ensures
        -HALF_TURN <= bearing_spec(dy, dx) <= HALF_TURN,
{
    if dx == 0 && dy == 0 {
    } else {
        let ax = iabs(dx);
        let ay = iabs(dy);
        if ay <= ax {
            let z = (ay * 1000) / ax;
            lemma_div_pos_is_pos(ay * 1000, ax);
            lemma_div_is_ordered(ay * 1000, ax * 1000, ax);
            lemma_div_multiples_vanish(1000, ax);
            lemma_atan_octant_bounds(z);
        } else {
            let z = (ax * 1000) / ay;
            lemma_div_pos_is_pos(ax * 1000, ay);
            lemma_div_is_ordered(ax * 1000, ay * 1000, ay);
            lemma_div_multiples_vanish(1000, ay);
            lemma_atan_octant_bounds(z);
        }
    }
}

/// Arctangent over the first octant of a ratio scaled by `TRIG_SCALE`.
fn atan_octant(z: u64) -> (r: u64)
    requires
        z <= 1000,
    ensures
        r == atan_octant_spec(z as int),
        r <= 125_000,
{
    proof {
        assert(43449 * z * (1000 - z) <= 43_449_000_000) by (nonlinear_arith)
            requires z <= 1000,
        ;
    }
    let num: u64 = 43449 * z * (1000 - z);
    let r: u64 = 125 * z + num / 1_000_000;
    proof {
        let zi = z as int;
        assert(num == 43449 * zi * (1000 - zi)) by (nonlinear_arith)
            requires num == 43449 * z * (1000 - z), zi == z,
        ;
        lemma_atan_octant_bounds(zi);
    }
    r
}

/// Bearing of the vector `(dx, dy)` in micro-turns.  The approximation is
/// exact on the axes and at the diagonals; the zero vector yields 0, as the
/// bearing of a body sitting on its focus is arbitrary.
pub fn fp_atan2(dy: i64, dx: i64) -> (r: i64)
    requires
        -BEARING_LIMIT <= dy <= BEARING_LIMIT,
        -BEARING_LIMIT <= dx <= BEARING_LIMIT,
    ensures
        r == bearing_spec(dy as int, dx as int),
        -HALF_TURN <= r <= HALF_TURN,
{
    proof {
        lemma_bearing_bounds(dy as int, dx as int);
    }
    if dx == 0 && dy == 0 {
        return 0;
    }
    let ax: u64 = if dx < 0 { (-dx) as u64 } else { dx as u64 };
    let ay: u64 = if dy < 0 { (-dy) as u64 } else { dy as u64 };
    assert(ax == iabs(dx as int) && ay == iabs(dy as int));
    let base: i64 = if ay <= ax {
        let z: u64 = ay * 1000 / ax;
        proof {
            lemma_div_pos_is_pos(ay as int * 1000, ax as int);
            lemma_div_is_ordered(ay as int * 1000, ax as int * 1000, ax as int);
            lemma_div_multiples_vanish(1000, ax as int);
        }
        atan_octant(z) as i64
    } else {
        let z: u64 = ax * 1000 / ay;
        proof {
            lemma_div_pos_is_pos(ax as int * 1000, ay as int);
            lemma_div_is_ordered(ax as int * 1000, ay as int * 1000, ay as int);
            lemma_div_multiples_vanish(1000, ay as int);
        }
        250_000 - (atan_octant(z) as i64)
    };
    if dy >= 0 {
        if dx >= 0 {
            base
        } else {
            500_000 - base
        }
    } else {
        if dx >= 0 {
            -base
        } else {
            base - 500_000
        }
    }
}

/// Sine over the first half turn.
fn sin_half(t: i64) -> (r: i64)
    requires
        0 <= t <= HALF_TURN,
    ensures
        r == sin_half_spec(t as int),
        0 <= r <= TRIG_SCALE,
{
    let tu: u64 = t as u64;
    proof {
        assert(tu * (500_000 - tu) <= 62_500_000_000) by (nonlinear_arith)
            requires tu <= 500_000,
        ;
    }
    let p: u64 = tu * (500_000 - tu);
    let num: u64 = 16 * p * 1000;
    let den: u64 = 1_250_000_000_000 - 4 * p;
    let q: u64 = num / den;
    proof {
        let ti = t as int;
        assert(num == 16 * ti * (HALF_TURN - ti) * TRIG_SCALE) by (nonlinear_arith)
            requires
                num == 16 * p * 1000,
                p == ti * (500_000 - ti),
                0 <= ti <= 500_000,
        ;
        assert(den == 5 * HALF_TURN * HALF_TURN - 4 * ti * (HALF_TURN - ti)) by (nonlinear_arith)
            requires
                den == 1_250_000_000_000 - 4 * p,
                p == ti * (500_000 - ti),
                0 <= ti <= 500_000,
        ;
        lemma_sin_half_bounds(ti);
        assert(q == sin_half_spec(ti));
    }
    q as i64
}

} // verus!
