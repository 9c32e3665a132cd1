//! Q16.16 fixed-point arithmetic: the number `x` stands for the real value
//! `x / 65536`.  Multiplication truncates toward zero, division floors the
//! (nonnegative) quotient, and a saturating clamp keeps every audio sample
//! inside a fixed range so that no computation can overflow.

use vstd::prelude::*;

verus! {

/// 1.0 in Q16.16.
pub const FX_ONE: i64 = 65536;

/// 0.5 in Q16.16; also half a turn when a value represents a phase in turns.
pub const FX_HALF: i64 = 32768;

/// 0.25 in Q16.16; a quarter turn.
pub const FX_QUARTER: i64 = 16384;

/// Largest operand magnitude accepted by `fx_mul`: products of two such
/// operands still fit in an `i64`.
pub const FX_MUL_BOUND: i64 = 0x7fff_ffff;

/// Saturation bound for audio samples and filter state: 256.0 in Q16.16.
pub const SAMPLE_MAX: i64 = 16777216;

/// Largest frequency accepted, in Q16.16 hertz (32768.0 Hz).
pub const FREQ_MAX: i64 = 0x7fff_ffff;

/// Largest sample rate accepted, in hertz.
pub const SR_MAX: u32 = 1000000;

/// Largest duration accepted, in Q16.16 seconds.
pub const SECONDS_MAX: i64 = 0x7fff_ffff;

/// Magnitude of an integer.
pub open spec fn fx_abs(a: int) -> int {
    if a < 0 {
        -a
    } else {
        a
    }
}

/// Q16.16 product, truncated toward zero (the magnitudes are multiplied,
/// scaled down, and the sign is reapplied).
pub open spec fn fx_mul_spec(a: int, b: int) -> int {
    if (a < 0) == (b < 0) {
        (fx_abs(a) * fx_abs(b)) / (FX_ONE as int)
    } else {
        -((fx_abs(a) * fx_abs(b)) / (FX_ONE as int))
    }
}

/// Clamp into `[-SAMPLE_MAX, SAMPLE_MAX]`.
pub open spec fn sat_spec(x: int) -> int {
    if x > SAMPLE_MAX {
        SAMPLE_MAX as int
    } else if x < -SAMPLE_MAX {
        -SAMPLE_MAX as int
    } else {
        x
    }
}

/// Q16.16 multiplication.
pub fn fx_mul(a: i64, b: i64) -> (r: i64)
    requires
        -FX_MUL_BOUND <= a <= FX_MUL_BOUND,
        -FX_MUL_BOUND <= b <= FX_MUL_BOUND,
    ensures
        r == fx_mul_spec(a as int, b as int),
{
    let neg: bool = (a < 0) != (b < 0);
    let ma: i64 = if a < 0 {
        -a
    } else {
        a
    };
    let mb: i64 = if b < 0 {
        -b
    } else {
        b
    };
    assert(0 <= ma * mb <= 0x7fff_ffff * 0x7fff_ffff) by (nonlinear_arith)
        requires
            0 <= ma <= 0x7fff_ffff,
            0 <= mb <= 0x7fff_ffff,
    ;
    let prod: i64 = ma * mb;
    let q: i64 = prod / FX_ONE;
    if neg {
        -q
    } else {
        q
    }
}

/// Division truncated toward zero (the quotient of the magnitudes, with the
/// dividend's sign reapplied).
pub open spec fn div_trunc_spec(a: int, b: int) -> int {
    if a < 0 {
        -((-a) / b)
    } else {
        a / b
    }
}

/// Divide, truncating toward zero.
pub fn div_trunc(a: i64, b: i64) -> (r: i64)
    requires
        -0x4000_0000_0000_0000 <= a <= 0x4000_0000_0000_0000,
        1 <= b,
    ensures
        r == div_trunc_spec(a as int, b as int),
        fx_abs(r as int) <= fx_abs(a as int),
{
    proof {
        vstd::arithmetic::div_mod::lemma_div_pos_is_pos(fx_abs(a as int), b as int);
        vstd::arithmetic::div_mod::lemma_div_nonincreasing(fx_abs(a as int), b as int);
    }
    if a < 0 {
        -((-a) / b)
    } else {
        a / b
    }
}

/// Saturate a sample into the legal range.
pub fn sat(x: i64) -> (r: i64)
    ensures
        r == sat_spec(x as int),
        -SAMPLE_MAX <= r <= SAMPLE_MAX,
{
    if x > SAMPLE_MAX {
        SAMPLE_MAX
    } else if x < -SAMPLE_MAX {
        -SAMPLE_MAX
    } else {
        x
    }
}

/// The product of magnitudes bounds the magnitude of a Q16.16 product.
pub proof fn lemma_fx_mul_bound(a: int, b: int, ba: int, bb: int)
    by (nonlinear_arith)
    requires
        fx_abs(a) <= ba,
        fx_abs(b) <= bb,
        0 <= ba,
        0 <= bb,
    ensures
        fx_abs(fx_mul_spec(a, b)) <= (ba * bb) / (FX_ONE as int),
        fx_abs(fx_mul_spec(a, b)) * (FX_ONE as int) <= ba * bb,
{
}

/// Multiplying by a factor of magnitude at most one cannot grow a magnitude.
pub proof fn lemma_fx_mul_le_one(a: int, b: int)
    by (nonlinear_arith)
    requires
        fx_abs(b) <= FX_ONE,
    ensures
        fx_abs(fx_mul_spec(a, b)) <= fx_abs(a),
{
}

/// One is the unit of Q16.16 multiplication.
pub proof fn lemma_fx_mul_unit(a: int)
    by (nonlinear_arith)
    ensures
        fx_mul_spec(a, FX_ONE as int) == a,
{
}

/// Zero annihilates a Q16.16 product.
pub proof fn lemma_fx_mul_zero(a: int)
    by (nonlinear_arith)
    ensures
        fx_mul_spec(a, 0) == 0,
        fx_mul_spec(0, a) == 0,
{
}

/// Minus one negates under Q16.16 multiplication.
pub proof fn lemma_fx_mul_neg_unit(a: int)
    by (nonlinear_arith)
    ensures
        fx_mul_spec(a, -(FX_ONE as int)) == -a,
{
}

/// Divisor that rescales the parabola `4 * x * (FX_HALF - x)` back to Q16.16:
/// equal to `FX_HALF * FX_HALF / FX_ONE`.
pub const SINE_PARABOLA_DIV: i64 = 16384;

/// Blend weight between the parabola and its square in the sine
/// approximation (about 0.775 in Q16.16).
pub const SINE_BLEND: i64 = 50800;

/// Parabolic approximation of `sin(pi * x / FX_HALF)` on `[0, FX_HALF]`,
/// sharpened by blending the parabola with its square.  Exact at 0, at
/// `FX_QUARTER` (where it reaches `FX_ONE`), and at `FX_HALF`.
pub open spec fn sine_half_spec(x: int) -> int {
    let y = (4 * x * (FX_HALF - x)) / (SINE_PARABOLA_DIV as int);
    fx_mul_spec(SINE_BLEND as int, y) + fx_mul_spec((FX_ONE - SINE_BLEND) as int, fx_mul_spec(y, y))
}

/// Approximate sine of a phase measured in turns: `x == FX_ONE` is one full
/// cycle.  Odd symmetry about the half turn.
pub open spec fn sine_spec(x: int) -> int {
    if x < FX_HALF {
        sine_half_spec(x)
    } else {
        -sine_half_spec(x - FX_HALF)
    }
}

/// The parabola stays within `[0, FX_ONE]` on `[0, FX_HALF]`.
proof fn lemma_parabola_range(x: int)
    by (nonlinear_arith)
    requires
        0 <= x <= FX_HALF,
    ensures
        0 <= (4 * x * (FX_HALF - x)) / (SINE_PARABOLA_DIV as int) <= FX_ONE,
{
}

/// The half-wave sine approximation stays within `[0, FX_ONE]`.
pub proof fn lemma_sine_half_range(x: int)
    requires
        0 <= x <= FX_HALF,
    ensures
        0 <= sine_half_spec(x) <= FX_ONE,
{
    lemma_parabola_range(x);
    let y = (4 * x * (FX_HALF - x)) / (SINE_PARABOLA_DIV as int);
    assert(0 <= fx_mul_spec(SINE_BLEND as int, y) <= SINE_BLEND) by (nonlinear_arith)
        requires
            0 <= y <= FX_ONE,
    ;
    assert(0 <= fx_mul_spec(y, y) <= FX_ONE) by (nonlinear_arith)
        requires
            0 <= y <= FX_ONE,
    ;
    let yy = fx_mul_spec(y, y);
    assert(0 <= fx_mul_spec((FX_ONE - SINE_BLEND) as int, yy) <= FX_ONE - SINE_BLEND)
        by (nonlinear_arith)
        requires
            0 <= yy <= FX_ONE,
    ;
}

/// The sine approximation never leaves `[-FX_ONE, FX_ONE]`.
pub proof fn lemma_sine_range(x: int)
    requires
        0 <= x < FX_ONE,
    ensures
        fx_abs(sine_spec(x)) <= FX_ONE,
{
    if x < FX_HALF {
        lemma_sine_half_range(x);
    } else {
        lemma_sine_half_range(x - FX_HALF);
    }
}

/// Away from its zero crossings the half-wave approximation is strictly
/// positive: needed to divide by a cosine safely.
pub proof fn lemma_sine_half_pos(x: int)
    requires
        256 <= x <= FX_HALF - 256,
    ensures
        sine_half_spec(x) >= 1,
{
    let y = (4 * x * (FX_HALF - x)) / (SINE_PARABOLA_DIV as int);
    assert(4 * x * (FX_HALF - x) >= 33292288) by (nonlinear_arith)
        requires
            256 <= x <= FX_HALF - 256,
    ;
    vstd::arithmetic::div_mod::lemma_div_is_ordered(
        33292288,
        4 * x * (FX_HALF - x),
        SINE_PARABOLA_DIV as int,
    );
    assert(y >= 2032);
    lemma_parabola_range(x);
    assert(fx_mul_spec(SINE_BLEND as int, y) >= 1) by (nonlinear_arith)
        requires
            2032 <= y <= FX_ONE,
    ;
    assert(fx_mul_spec((FX_ONE - SINE_BLEND) as int, fx_mul_spec(y, y)) >= 0) by (nonlinear_arith)
        requires
            0 <= y,
    ;
}

/// The sine approximation is exact at the four quarter points of a cycle:
/// 0, 1, 0, -1.
pub proof fn lemma_sine_quarter_values()
    ensures
        sine_spec(0) == 0,
        sine_spec(FX_QUARTER as int) == FX_ONE,
        sine_spec(FX_HALF as int) == 0,
        sine_spec((FX_HALF + FX_QUARTER) as int) == -FX_ONE,
{
    assert(sine_half_spec(0) == 0) by {
        lemma_fx_mul_zero(SINE_BLEND as int);
        lemma_fx_mul_zero((FX_ONE - SINE_BLEND) as int);
        lemma_fx_mul_zero(0);
    }
    assert(sine_half_spec(FX_QUARTER as int) == FX_ONE) by {
        assert(4 * FX_QUARTER * (FX_HALF - FX_QUARTER) / (SINE_PARABOLA_DIV as int) == FX_ONE);
        lemma_fx_mul_unit(SINE_BLEND as int);
        lemma_fx_mul_unit(FX_ONE as int);
        lemma_fx_mul_unit((FX_ONE - SINE_BLEND) as int);
    }
}

/// Approximate sine of a phase in turns.
pub fn sine_fx(x: i64) -> (r: i64)
    requires
        0 <= x < FX_ONE,
    ensures
        r == sine_spec(x as int),
        -FX_ONE <= r <= FX_ONE,
{
    proof {
        lemma_sine_range(x as int);
    }
    let (arg, neg): (i64, bool) = if x < FX_HALF {
        (x, false)
    } else {
        (x - FX_HALF, true)
    };
    proof {
        assert(0 <= 4 * arg * (FX_HALF - arg) <= 0x4000_0000) by (nonlinear_arith)
            requires
                0 <= arg <= FX_HALF,
        ;
        lemma_parabola_range(arg as int);
    }
    let y: i64 = (4 * arg * (FX_HALF - arg)) / SINE_PARABOLA_DIV;
    let yy: i64 = fx_mul(y, y);
    proof {
        lemma_fx_mul_le_one(y as int, y as int);
    }
    let blended: i64 = fx_mul(SINE_BLEND, y) + fx_mul(FX_ONE - SINE_BLEND, yy);
    if neg {
        -blended
    } else {
        blended
    }
}

} // verus!
