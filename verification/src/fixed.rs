//! Saturating Q16.16 fixed-point arithmetic for audio samples and spectral
//! magnitudes.
//!
//! A sample value `x` stands for the real number `x / SCALE`. Every operation
//! saturates at `±SAT_MAX`, so all operations are total on bounded values and
//! every processing path stays panic-free.
use vstd::prelude::*;

verus! {

/// Number of fixed-point steps per unit: values are in Q16.16 format.
pub const SCALE: i64 = 65536;

/// Saturation bound for every arithmetic result (2^46 steps, i.e. 2^30 units).
pub const SAT_MAX: i64 = 0x4000_0000_0000;

/// A value the arithmetic kernel accepts: within the saturation bound.
pub open spec fn bounded(x: i64) -> bool {
    -SAT_MAX <= x <= SAT_MAX
}

/// All entries of a sample vector are bounded.
pub open spec fn all_bounded(s: Seq<i64>) -> bool {
    forall|i: int| 0 <= i < s.len() ==> bounded(#[trigger] s[i])
}

/// Magnitude of a mathematical integer.
pub open spec fn abs_i(x: int) -> int {
    if x < 0 { -x } else { x }
}

/// Clamp a mathematical integer into the saturation range.
pub open spec fn sat_i(x: int) -> int {
    if x > SAT_MAX { SAT_MAX as int } else if x < -SAT_MAX { -(SAT_MAX as int) } else { x }
}

/// Division truncated toward zero (for positive divisors).
pub open spec fn div_trunc(a: int, b: int) -> int {
    if a < 0 { -((-a) / b) } else { a / b }
}

/// Saturating sum.
pub open spec fn q_add(a: int, b: int) -> int {
    sat_i(a + b)
}

/// Saturating difference.
pub open spec fn q_sub(a: int, b: int) -> int {
    sat_i(a - b)
}

/// Saturating fixed-point product: `(a * b) / SCALE`, truncated toward zero.
pub open spec fn q_mul(a: int, b: int) -> int {
    sat_i(div_trunc(a * b, SCALE as int))
}

/// Saturating fixed-point quotient: `(a * SCALE) / b`, truncated toward zero.
pub open spec fn q_div(a: int, b: int) -> int {
    sat_i(
        if (a < 0) == (b < 0) {
            abs_i(a) * (SCALE as int) / abs_i(b)
        } else {
            -(abs_i(a) * (SCALE as int) / abs_i(b))
        },
    )
}

/// One-sided linear interpolation step from `a` toward `b` by factor `f`.
pub open spec fn q_lerp(a: int, b: int, f: int) -> int {
    q_add(a, q_mul(q_sub(b, a), f))
}

/// Truncating division of a sample by a positive count (plain integer
/// division, not fixed-point).
pub open spec fn q_divn(a: int, n: int) -> int {
    sat_i(div_trunc(a, n))
}

/// Average of two samples, truncated toward zero.
pub open spec fn q_avg2(a: int, b: int) -> int {
    q_divn(a + b, 2)
}

/// Linear crossfade between `x` and `y` at ramp position `i` of `l`:
/// `((l - 1 - i) * x + i * y) / (l - 1)`, truncated toward zero.
pub open spec fn q_interp(x: int, y: int, i: int, l: int) -> int {
    sat_i(div_trunc((l - 1 - i) * x + i * y, l - 1))
}

/// `r` is the integer square root of `n` rounded down.
pub open spec fn is_sqrt_floor(n: int, r: int) -> bool {
    0 <= r && r * r <= n && n < (r + 1) * (r + 1)
}

/// The integer square root of a non-negative integer, rounded down.
pub closed spec fn sqrt_floor(n: int) -> int {
    choose|r: int| #[trigger] is_sqrt_floor(n, r)
}

/// Magnitude of a complex spectral bin, saturated into the sample range.
pub open spec fn q_norm(re: int, im: int) -> int {
    sat_i(sqrt_floor(re * re + im * im))
}

proof fn lemma_mul_bounds(a: int, b: int, ca: int, cb: int)
    requires
        0 <= a <= ca,
        0 <= b <= cb,
    ensures
        a * b <= ca * cb,
        0 <= a * b,
{
    assert(a * b <= ca * cb && 0 <= a * b) by (nonlinear_arith)
        requires 0 <= a <= ca && 0 <= b <= cb;
}

/// The magnitude of a product is the product of the magnitudes.
pub proof fn lemma_abs_mul(a: int, b: int)
    ensures
        abs_i(a * b) == abs_i(a) * abs_i(b),
        a * b < 0 <==> (a < 0) != (b < 0) && a != 0 && b != 0,
{
    assert(abs_i(a * b) == abs_i(a) * abs_i(b) && (a * b < 0 <==> (a < 0) != (b < 0) && a != 0 && b
        != 0)) by (nonlinear_arith);
}

/// Bounded factors give a bounded product.
pub proof fn lemma_mul_abs_bound(a: int, b: int, ca: int, cb: int)
    requires
        abs_i(a) <= ca,
        abs_i(b) <= cb,
    ensures
        abs_i(a * b) <= ca * cb,
{
    assert(abs_i(a * b) <= ca * cb) by (nonlinear_arith)
        requires abs_i(a) <= ca && abs_i(b) <= cb;
}

/// Saturating addition of two bounded samples.
pub fn fadd(a: i64, b: i64) -> (r: i64)
    requires
        bounded(a),
        bounded(b),
    ensures
        r == q_add(a as int, b as int),
        bounded(r),
{
    let s: i64 = a + b;
    if s > SAT_MAX {
        SAT_MAX
    } else if s < -SAT_MAX {
        -SAT_MAX
    } else {
        s
    }
}

/// Saturating subtraction of two bounded samples.
pub fn fsub(a: i64, b: i64) -> (r: i64)
    requires
        bounded(a),
        bounded(b),
    ensures
        r == q_sub(a as int, b as int),
        bounded(r),
{
    let s: i64 = a - b;
    if s > SAT_MAX {
        SAT_MAX
    } else if s < -SAT_MAX {
        -SAT_MAX
    } else {
        s
    }
}

/// Saturating fixed-point multiplication of two bounded samples.
pub fn fmul(a: i64, b: i64) -> (r: i64)
    requires
        bounded(a),
        bounded(b),
    ensures
        r == q_mul(a as int, b as int),
        bounded(r),
{
    let neg: bool = (a < 0) != (b < 0);
    let ma: u64 = if a < 0 { (-a) as u64 } else { a as u64 };
    let mb: u64 = if b < 0 { (-b) as u64 } else { b as u64 };
    proof {
        lemma_mul_bounds(ma as int, mb as int, SAT_MAX as int, SAT_MAX as int);
        lemma_abs_mul(a as int, b as int);
    }
    let p: u128 = (ma as u128) * (mb as u128);
    let q: u128 = p / 65536u128;
    let mag: i64 = if q > SAT_MAX as u128 { SAT_MAX } else { q as i64 };
    proof {
        assert(p == abs_i((a as int) * (b as int)));
        assert(q == abs_i((a as int) * (b as int)) / (SCALE as int));
    }
    if neg && mag != 0 {
        -mag
    } else {
        mag
    }
}

/// Saturating fixed-point division of bounded `a` by nonzero bounded `b`.
pub fn fdiv(a: i64, b: i64) -> (r: i64)
    requires
        bounded(a),
        bounded(b),
        b != 0,
    ensures
        r == q_div(a as int, b as int),
        bounded(r),
{
    let neg: bool = (a < 0) != (b < 0);
    let ma: u64 = if a < 0 { (-a) as u64 } else { a as u64 };
    let mb: u64 = if b < 0 { (-b) as u64 } else { b as u64 };
    proof {
        lemma_mul_bounds(ma as int, SCALE as int, SAT_MAX as int, SCALE as int);
    }
    let p: u128 = (ma as u128) * 65536u128;
    let q: u128 = p / (mb as u128);
    let mag: i64 = if q > SAT_MAX as u128 { SAT_MAX } else { q as i64 };
    proof {
        assert(p == abs_i(a as int) * (SCALE as int));
        assert(q == abs_i(a as int) * (SCALE as int) / abs_i(b as int));
    }
    if neg && mag != 0 {
        -mag
    } else {
        mag
    }
}

/// Truncating division of a wide intermediate value by a positive divisor.
pub fn fdivt_i128(a: i128, b: u128) -> (r: i128)
    requires
        a > i128::MIN,
        b > 0,
    ensures
        r == div_trunc(a as int, b as int),
        abs_i(r as int) <= abs_i(a as int),
{
    let neg: bool = a < 0;
    let ma: u128 = if a < 0 { (-a) as u128 } else { a as u128 };
    let q: u128 = ma / b;
    proof {
        assert(q <= ma);
    }
    let mag: i128 = q as i128;
    if neg && mag != 0 {
        -mag
    } else {
        mag
    }
}

/// A fraction of at most one leaves a non-negative value no larger.
pub proof fn lemma_ratio_le_one(x: int, num: int, den: int)
    requires
        0 <= x,
        0 < num <= den,
    ensures
        0 <= x * num / den <= x,
{
    assert(0 <= x * num <= x * den) by (nonlinear_arith)
        requires 0 <= x && 0 < num <= den;
    vstd::arithmetic::div_mod::lemma_div_is_ordered(x * num, x * den, den);
    vstd::arithmetic::div_mod::lemma_div_by_multiple(x, den);
    vstd::arithmetic::div_mod::lemma_div_pos_is_pos(x * num, den);
}

/// Scale a bounded sample by the rational `num / den` with `num <= den`,
/// truncating toward zero; the result never grows in magnitude.
pub fn fmul_div(x: i64, num: u64, den: u64) -> (r: i64)
    requires
        bounded(x),
        0 < num <= den,
        num <= 0x1_0000_0000,
    ensures
        r == div_trunc((x as int) * (num as int), den as int),
        abs_i(r as int) <= abs_i(x as int),
        bounded(r),
{
    let neg: bool = x < 0;
    let mx: u64 = if x < 0 { (-x) as u64 } else { x as u64 };
    proof {
        lemma_mul_bounds(mx as int, num as int, SAT_MAX as int, 0x1_0000_0000);
        lemma_ratio_le_one(mx as int, num as int, den as int);
        lemma_abs_mul(x as int, num as int);
    }
    let m: u128 = (mx as u128) * (num as u128) / (den as u128);
    let mag: i64 = m as i64;
    proof {
        assert(m == abs_i((x as int) * (num as int)) / (den as int));
    }
    if neg && mag != 0 {
        -mag
    } else {
        mag
    }
}

/// Truncating division of a bounded sample by a positive count.
pub fn fdivn(a: i64, n: u64) -> (r: i64)
    requires
        bounded(a),
        n > 0,
    ensures
        r == q_divn(a as int, n as int),
        bounded(r),
{
    let neg: bool = a < 0;
    let ma: u64 = if a < 0 { (-a) as u64 } else { a as u64 };
    let q: u64 = ma / n;
    let mag: i64 = q as i64;
    proof {
        assert(q <= ma);
    }
    if neg && mag != 0 {
        -mag
    } else {
        mag
    }
}

/// Average of two bounded samples, truncated toward zero.
pub fn favg2(a: i64, b: i64) -> (r: i64)
    requires
        bounded(a),
        bounded(b),
    ensures
        r == q_avg2(a as int, b as int),
        bounded(r),
{
    let s: i64 = a + b;
    let neg: bool = s < 0;
    let ms: u64 = if s < 0 { (-s) as u64 } else { s as u64 };
    let q: u64 = ms / 2;
    let mag0: i64 = q as i64;
    let mag: i64 = if mag0 > SAT_MAX { SAT_MAX } else { mag0 };
    if neg && mag != 0 {
        -mag
    } else {
        mag
    }
}

proof fn lemma_sqrt_floor_exists(n: nat)
    ensures
        exists|r: int| is_sqrt_floor(n as int, r),
    decreases n,
{
    if n == 0 {
        assert(is_sqrt_floor(0, 0));
    } else {
        lemma_sqrt_floor_exists((n - 1) as nat);
        let r: int = choose|r: int| #[trigger] is_sqrt_floor(n as int - 1, r);
        if n < (r + 1) * (r + 1) {
            assert(is_sqrt_floor(n as int, r));
        } else {
            assert((r + 1) * (r + 1) == n);
            assert(n < (r + 2) * (r + 2)) by (nonlinear_arith)
                requires r >= 0 && (r + 1) * (r + 1) == n;
            assert(is_sqrt_floor(n as int, r + 1));
        }
    }
}

proof fn lemma_sqrt_floor_unique(n: int, a: int, b: int)
    requires
        is_sqrt_floor(n, a),
        is_sqrt_floor(n, b),
    ensures
        a == b,
{
    assert(a == b) by (nonlinear_arith)
        requires
            0 <= a && a * a <= n && n < (a + 1) * (a + 1) && 0 <= b && b * b <= n && n < (b + 1) * (
            b + 1);
}

/// Pins down `sqrt_floor` at a value with a known witness.
pub proof fn lemma_sqrt_floor_is(n: int, r: int)
    requires
        is_sqrt_floor(n, r),
    ensures
        sqrt_floor(n) == r,
{
    assert(exists|x: int| #[trigger] is_sqrt_floor(n, x));
    let c: int = sqrt_floor(n);
    assert(is_sqrt_floor(n, c));
    lemma_sqrt_floor_unique(n, c, r);
}

/// Integer square root by bisection.
pub fn isqrt_u128(x: u128) -> (r: u64)
    requires
        x < 5070602400912917605986812821504,
    ensures
        is_sqrt_floor(x as int, r as int),
{
    if x == 0 {
        return 0;
    }
    let mut lo: u64 = 0;
    let mut hi: u64 = 2251799813685248;
    proof {
        assert(2251799813685248int * 2251799813685248int == 5070602400912917605986812821504int);
    }
    while lo + 1 < hi
        invariant
            lo < hi <= 2251799813685248,
            (lo as int) * (lo as int) <= x as int,
            (x as int) < (hi as int) * (hi as int),
        decreases hi - lo,
    {
        let mid: u64 = lo + (hi - lo) / 2;
        proof {
            lemma_mul_bounds(mid as int, mid as int, 2251799813685248int, 2251799813685248int);
        }
        let sq: u128 = (mid as u128) * (mid as u128);
        if sq <= x {
            lo = mid;
        } else {
            hi = mid;
        }
    }
    lo
}

/// Magnitude of a complex spectral bin with bounded parts.
pub fn fnorm(re: i64, im: i64) -> (r: i64)
    requires
        bounded(re),
        bounded(im),
    ensures
        r == q_norm(re as int, im as int),
        0 <= r,
        bounded(r),
{
    let mre: u64 = if re < 0 { (-re) as u64 } else { re as u64 };
    let mim: u64 = if im < 0 { (-im) as u64 } else { im as u64 };
    proof {
        lemma_mul_bounds(mre as int, mre as int, SAT_MAX as int, SAT_MAX as int);
        lemma_mul_bounds(mim as int, mim as int, SAT_MAX as int, SAT_MAX as int);
        assert((mre as int) * (mre as int) == (re as int) * (re as int)) by (nonlinear_arith)
            requires mre as int == abs_i(re as int);
        assert((mim as int) * (mim as int) == (im as int) * (im as int)) by (nonlinear_arith)
            requires mim as int == abs_i(im as int);
    }
    let x: u128 = (mre as u128) * (mre as u128) + (mim as u128) * (mim as u128);
    let s: u64 = isqrt_u128(x);
    proof {
        lemma_sqrt_floor_is(x as int, s as int);
    }
    if s > SAT_MAX as u64 {
        SAT_MAX
    } else {
        s as i64
    }
}

/// Squared magnitude of a complex spectral bin (never saturates).
pub fn fnorm_sqr(re: i64, im: i64) -> (r: u128)
    requires
        bounded(re),
        bounded(im),
    ensures
        r == (re as int) * (re as int) + (im as int) * (im as int),
{
    let mre: u64 = if re < 0 { (-re) as u64 } else { re as u64 };
    let mim: u64 = if im < 0 { (-im) as u64 } else { im as u64 };
    proof {
        lemma_mul_bounds(mre as int, mre as int, SAT_MAX as int, SAT_MAX as int);
        lemma_mul_bounds(mim as int, mim as int, SAT_MAX as int, SAT_MAX as int);
        assert((mre as int) * (mre as int) == (re as int) * (re as int)) by (nonlinear_arith)
            requires mre as int == abs_i(re as int);
        assert((mim as int) * (mim as int) == (im as int) * (im as int)) by (nonlinear_arith)
            requires mim as int == abs_i(im as int);
    }
    (mre as u128) * (mre as u128) + (mim as u128) * (mim as u128)
}

/// Crossfade between bounded samples `x` (weight fading out) and `y`
/// (weight fading in) at ramp position `i` of a block of length `l`.
pub fn finterp(x: i64, y: i64, i: usize, l: usize) -> (r: i64)
    requires
        bounded(x),
        bounded(y),
        i < l,
        2 <= l <= 65536,
    ensures
        r == q_interp(x as int, y as int, i as int, l as int),
        bounded(r),
{
    let wx: i128 = (l - 1 - i) as i128;
    let wy: i128 = i as i128;
    proof {
        lemma_mul_abs_bound(wx as int, x as int, 65536, SAT_MAX as int);
        lemma_mul_abs_bound(wy as int, y as int, 65536, SAT_MAX as int);
    }
    let n: i128 = wx * (x as i128) + wy * (y as i128);
    let neg: bool = n < 0;
    let mn: u128 = if n < 0 { (-n) as u128 } else { n as u128 };
    let q: u128 = mn / ((l - 1) as u128);
    let mag: i64 = if q > SAT_MAX as u128 { SAT_MAX } else { q as i64 };
    proof {
        let nn: int = (l - 1 - i) * (x as int) + (i as int) * (y as int);
        assert(n == nn);
        assert(mn == abs_i(nn));
        assert(q == abs_i(nn) / (l - 1));
    }
    if neg && mag != 0 {
        -mag
    } else {
        mag
    }
}

/// Exponential-smoothing step: move `a` toward `b` by fixed-point factor `f`.
pub fn flerp(a: i64, b: i64, f: i64) -> (r: i64)
    requires
        bounded(a),
        bounded(b),
        bounded(f),
    ensures
        r == q_lerp(a as int, b as int, f as int),
        bounded(r),
{
    let d: i64 = fsub(b, a);
    let step: i64 = fmul(d, f);
    fadd(a, step)
}

/// Multiplying by zero yields zero, on either side.
pub proof fn lemma_q_mul_zero(x: int)
    ensures
        q_mul(x, 0) == 0,
        q_mul(0, x) == 0,
{
    assert(x * 0 == 0) by (nonlinear_arith);
    assert(0 * x == 0) by (nonlinear_arith);
}

/// A product of non-negative values stays non-negative through the
/// fixed-point multiply.
pub proof fn lemma_q_mul_nonneg(a: int, b: int)
    requires
        0 <= a,
        0 <= b,
    ensures
        0 <= q_mul(a, b),
{
    assert(0 <= a * b) by (nonlinear_arith)
        requires 0 <= a && 0 <= b;
    vstd::arithmetic::div_mod::lemma_div_pos_is_pos(a * b, SCALE as int);
}

} // verus!
