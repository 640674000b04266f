//! Noise reduction: per window, the quieter of the two channels is kept per
//! bin, a slow persistent-magnitude estimate of sustained content is
//! subtracted in the magnitude domain, low spectral variance can attenuate
//! the whole window, and a noise gate can fade quiet windows out.
//!
//! One processing call runs `feed`, and once `is_ready` holds: `windows`,
//! the host's forward transform, `spectral_variance` and `spectral_edit`,
//! the inverse transform, `apply_gate`, `normalize_window`, and
//! `overlap.emit`. The transforms and the two dB/sigmoid decisions are the
//! host adapter's float-domain work; every other stage is verified here.
use vstd::prelude::*;
use circular_buffer::CircularBuffer;
use crate::dsp::{track_silence, DspType, Parameter, ParameterType, ProcessResult};
use crate::fixed::{
    abs_i, all_bounded, bounded, div_trunc, fdiv, fdivt_i128, flerp, fnorm, fnorm_sqr,
    is_sqrt_floor, isqrt_u128, lemma_mul_abs_bound, lemma_sqrt_floor_is, q_avg2, q_div, q_lerp,
    fmul, fmul_div, lemma_ratio_le_one, q_add, q_mul, q_norm, q_sub, sat_i, sqrt_floor, favg2,
    SAT_MAX, SCALE,
};
use crate::pipeline::{all_zero, OverlapAdd};
use crate::ring::{
    copy_contiguous, ring_clear, ring_extend, ring_is_full, ring_new, ring_samples, stream_tail,
    WINDOW,
};
use crate::signal::{left_of, right_of, SignalConst};
use crate::spectrum::{bins_bounded, mag_sub, q_mag_sub};
use crate::cassette::min_i;

verus! {

/// Spectral bins of one transformed window: N/2 + 1.
pub const HBINS: usize = 2049;

/// Forward-half normalization constant: the square root of the window
/// length, in Q16.16. Dividing by it once in the spectral edit and once
/// after inversion exactly cancels the transform pair's gain of `WINDOW`.
pub const ADJ_Q: i64 = 4194304;

/// Per-bin persistent estimates are non-negative and bounded.
pub open spec fn persist_ok(s: Seq<i64>) -> bool {
    forall|i: int| 0 <= i < s.len() ==> 0 <= #[trigger] s[i] <= SAT_MAX
}

/// The quieter of the two channels' bins (by squared magnitude; the left
/// bin wins ties).
pub open spec fn nr_pick(l: (i64, i64), r: (i64, i64)) -> (i64, i64) {
    if l.0 * l.0 + l.1 * l.1 > r.0 * r.0 + r.1 * r.1 {
        r
    } else {
        l
    }
}

/// The persistent estimate after one window: pulled toward the current
/// magnitude, but clamped first so it can only track downward instantly.
pub open spec fn nr_persist_step(p: int, m: int, f: int) -> int {
    q_lerp(min_i(p, m), m, f)
}

/// One bin of the edited spectrum, before the Hermitian fix-up: channel
/// minimum, persistent subtraction, forward-half normalization, and the
/// optional variance attenuation.
pub open spec fn nr_bin(
    l: (i64, i64),
    r: (i64, i64),
    p: int,
    persist_enable: bool,
    f: int,
    var_enable: bool,
    vs: int,
) -> (int, int) {
    let c = nr_pick(l, r);
    let b1 = if persist_enable {
        q_mag_sub(nr_persist_step(p, q_norm(c.0 as int, c.1 as int), f), c)
    } else {
        (c.0 as int, c.1 as int)
    };
    let b2 = (q_div(b1.0, ADJ_Q as int), q_div(b1.1, ADJ_Q as int));
    if var_enable {
        (q_mul(b2.0, vs), q_mul(b2.1, vs))
    } else {
        b2
    }
}

/// Sum of the centered per-bin magnitudes over the first `k` bins.
pub open spec fn nr_sum_x(l: Seq<(i64, i64)>, r: Seq<(i64, i64)>, off: int, k: int) -> int
    decreases k,
{
    if k <= 0 {
        0
    } else {
        nr_sum_x(l, r, off, k - 1) + (q_avg2(
            q_norm(l[k - 1].0 as int, l[k - 1].1 as int),
            q_norm(r[k - 1].0 as int, r[k - 1].1 as int),
        ) - off)
    }
}

/// Sum of the squared centered per-bin magnitudes over the first `k` bins.
pub open spec fn nr_sum_x_sq(l: Seq<(i64, i64)>, r: Seq<(i64, i64)>, off: int, k: int) -> int
    decreases k,
{
    if k <= 0 {
        0
    } else {
        let x = q_avg2(
            q_norm(l[k - 1].0 as int, l[k - 1].1 as int),
            q_norm(r[k - 1].0 as int, r[k - 1].1 as int),
        ) - off;
        nr_sum_x_sq(l, r, off, k - 1) + x * x
    }
}

/// The centering offset: the averaged magnitude of the first bin.
pub open spec fn nr_offset(l: Seq<(i64, i64)>, r: Seq<(i64, i64)>) -> int {
    q_avg2(q_norm(l[0].0 as int, l[0].1 as int), q_norm(r[0].0 as int, r[0].1 as int))
}

/// The spectral deviation of one window pair: the square root of the
/// centered second moment, zero when rounding drives it negative.
pub open spec fn nr_variance(l: Seq<(i64, i64)>, r: Seq<(i64, i64)>) -> int {
    let off = nr_offset(l, r);
    let n = HBINS as int;
    let mean = div_trunc(nr_sum_x(l, r, off, n), n);
    let v = nr_sum_x_sq(l, r, off, n) / n - mean * mean;
    if v < 0 {
        0
    } else {
        sat_i(sqrt_floor(v))
    }
}

/// The noise-gate fade factor applied to sample `i` of a window that is below the
/// gate threshold for the first time: a ramp from full attenuation at the
/// window's start.
pub open spec fn gate_engage(x: int, i: int) -> int {
    div_trunc(x * (WINDOW as int), WINDOW as int + 7 * i)
}

/// The fade applied while the noise gate stays engaged: a flat division.
pub open spec fn gate_hold(x: int) -> int {
    div_trunc(x, 8)
}

/// The fade applied after the noise gate releases: a ramp back to full level at
/// the window's end.
pub open spec fn gate_release(x: int, i: int) -> int {
    div_trunc(x * (WINDOW as int), WINDOW as int + 7 * (WINDOW as int - i))
}

/// Stereo noise-reduction unit.
pub struct NoiseReduction {
    /// Ring of the most recent left-channel samples.
    pub delay_left: CircularBuffer<4096, i64>,
    /// Ring of the most recent right-channel samples.
    pub delay_right: CircularBuffer<4096, i64>,
    /// Per-bin persistent magnitude estimates.
    pub persistent: Vec<i64>,
    /// Whether the previous window was gated.
    pub was_gated: bool,
    /// Idle samples seen since the last active input.
    pub silence: usize,
    /// Overlap-add residual.
    pub overlap: OverlapAdd,
    /// Whether low spectral variance attenuates the window.
    pub var_enable: bool,
    /// Variance attenuation strength, Q16.16 in [0, 10].
    pub var_adj_q: i64,
    /// Whether persistent magnitudes are tracked and subtracted.
    pub persist_enable: bool,
    /// Persistence smoothing factor, Q16.16 in [0.01, 1].
    pub persist_lerp_q: i64,
    /// Whether the noise gate runs.
    pub noise_gate_enable: bool,
    /// Gate threshold in dB, Q16.16 in [-60, 20].
    pub noise_gate_req_q: i64,
}

impl NoiseReduction {
    /// Structural invariant: full-size bounded state and in-range
    /// parameters.
    pub open spec fn wf(self) -> bool {
        &&& all_bounded(ring_samples(self.delay_left))
        &&& all_bounded(ring_samples(self.delay_right))
        &&& self.persistent@.len() == HBINS
        &&& persist_ok(self.persistent@)
        &&& self.overlap.wf()
        &&& 0 <= self.var_adj_q <= 10 * SCALE
        &&& SCALE / 100 <= self.persist_lerp_q <= SCALE
        &&& -60 * SCALE <= self.noise_gate_req_q <= 20 * SCALE
    }

    pub fn name() -> (r: &'static str)
        ensures
            r@ == "Noise Reduction"@,
    {
        "Noise Reduction"
    }

    pub fn version() -> (r: u32)
        ensures
            r == 1,
    {
        1
    }

    pub fn ty() -> (r: DspType)
        ensures
            r == DspType::Effect,
    {
        DspType::Effect
    }

    /// Static parameter metadata; ranges match the setters' preconditions
    /// and the defaults match `create`.
    pub fn parameters() -> (r: Vec<Parameter>)
        ensures
            r@.len() == 6,
            r@[0].name@ == "var_adj"@ && r@[0].ty == (ParameterType::Float {
                min: 0,
                max: (10 * SCALE) as i64,
                default: (6 * SCALE) as i64,
            }),
            r@[1].name@ == "var_enable"@ && r@[1].ty == (ParameterType::Bool { default: true }),
            r@[2].name@ == "persist_lerp"@ && r@[2].ty == (ParameterType::Float {
                min: (SCALE / 100) as i64,
                max: SCALE,
                default: (3 * SCALE / 100) as i64,
            }),
            r@[3].name@ == "persist_enable"@ && r@[3].ty == (ParameterType::Bool {
                default: true,
            }),
            r@[4].name@ == "noise_gate_en"@ && r@[4].ty == (ParameterType::Bool {
                default: true,
            }),
            r@[5].name@ == "noise_gate_req"@ && r@[5].unit@ == "dB"@ && r@[5].ty == (
            ParameterType::Float {
                min: (-60 * SCALE) as i64,
                max: (20 * SCALE) as i64,
                default: (-45 * SCALE) as i64,
            }),
    {
        let mut v: Vec<Parameter> = Vec::new();
        v.push(
            Parameter::with_unit(
                "var_adj",
                "",
                ParameterType::Float { min: 0, max: 10 * SCALE, default: 6 * SCALE },
            ),
        );
        v.push(Parameter::new("var_enable", ParameterType::Bool { default: true }));
        v.push(
            Parameter::with_unit(
                "persist_lerp",
                "per sec",
                ParameterType::Float {
                    min: SCALE / 100,
                    max: SCALE,
                    default: 3 * SCALE / 100,
                },
            ),
        );
        v.push(Parameter::new("persist_enable", ParameterType::Bool { default: true }));
        v.push(Parameter::new("noise_gate_en", ParameterType::Bool { default: true }));
        v.push(
            Parameter::with_unit(
                "noise_gate_req",
                "dB",
                ParameterType::Float { min: -60 * SCALE, max: 20 * SCALE, default: -45 * SCALE },
            ),
        );
        v
    }

    /// A unit with empty history, zero persistent state, and default
    /// parameters.
    pub fn create() -> (r: NoiseReduction)
        ensures
            r.wf(),
            ring_samples(r.delay_left).len() == 0,
            ring_samples(r.delay_right).len() == 0,
            all_zero(r.persistent@),
            all_zero(r.overlap.residual@),
            !r.was_gated,
            r.silence == 0,
            r.var_enable,
            r.var_adj_q == 6 * SCALE,
            r.persist_enable,
            r.persist_lerp_q == 3 * SCALE / 100,
            r.noise_gate_enable,
            r.noise_gate_req_q == -45 * SCALE,
    {
        let mut persistent: Vec<i64> = Vec::new();
        let mut i: usize = 0;
        while i < HBINS
            invariant
                i <= HBINS,
                persistent@.len() == i,
                all_zero(persistent@),
                persist_ok(persistent@),
            decreases HBINS - i,
        {
            persistent.push(0);
            i = i + 1;
        }
        NoiseReduction {
            delay_left: ring_new(),
            delay_right: ring_new(),
            persistent,
            was_gated: false,
            silence: 0,
            overlap: OverlapAdd::new(),
            var_enable: true,
            var_adj_q: 6 * SCALE,
            persist_enable: true,
            persist_lerp_q: 3 * SCALE / 100,
            noise_gate_enable: true,
            noise_gate_req_q: -45 * SCALE,
        }
    }

    /// Clear all history and accumulated state; the six user parameters
    /// keep their values.
    pub fn reset(&mut self)
        requires
            old(self).wf(),
        ensures
            final(self).wf(),
            ring_samples(final(self).delay_left).len() == 0,
            ring_samples(final(self).delay_right).len() == 0,
            all_zero(final(self).persistent@),
            all_zero(final(self).overlap.residual@),
            *final(self) == (NoiseReduction {
                delay_left: final(self).delay_left,
                delay_right: final(self).delay_right,
                persistent: final(self).persistent,
                overlap: final(self).overlap,
                was_gated: false,
                silence: 0,
                ..*old(self)
            }),
    {
        ring_clear(&mut self.delay_left);
        ring_clear(&mut self.delay_right);
        let mut zeros: Vec<i64> = Vec::new();
        let mut i: usize = 0;
        while i < HBINS
            invariant
                i <= HBINS,
                zeros@.len() == i,
                all_zero(zeros@),
                persist_ok(zeros@),
            decreases HBINS - i,
        {
            zeros.push(0);
            i = i + 1;
        }
        self.persistent = zeros;
        self.was_gated = false;
        self.overlap.reset();
        self.silence = 0;
    }

    /// Skip processing only after a full window of uninterrupted silence;
    /// any active input resumes processing at once.
    pub fn should_process(&mut self, idle: bool, incoming_length: usize) -> (r: ProcessResult)
        requires
            old(self).wf(),
        ensures
            final(self).wf(),
            !idle ==> final(self).silence == 0 && r == ProcessResult::Continue,
            idle && old(self).silence + incoming_length <= usize::MAX ==> final(self).silence
                == old(self).silence + incoming_length,
            idle && old(self).silence + incoming_length > usize::MAX ==> final(self).silence
                == usize::MAX,
            r == if final(self).silence >= WINDOW {
                ProcessResult::SkipSilent
            } else {
                ProcessResult::Continue
            },
            *final(self) == (NoiseReduction { silence: final(self).silence, ..*old(self) }),
    {
        let (s, full): (usize, bool) = track_silence(self.silence, idle, incoming_length, WINDOW);
        self.silence = s;
        if full {
            ProcessResult::SkipSilent
        } else {
            ProcessResult::Continue
        }
    }

    pub fn preferred_out_channels(&self) -> (r: Option<usize>)
        ensures
            r == Some(2usize),
    {
        Some(2)
    }

    /// Stream one block into the two delay rings.
    pub fn feed(&mut self, input: &SignalConst)
        requires
            old(self).wf(),
            input.wf(),
        ensures
            final(self).wf(),
            ring_samples(final(self).delay_left).len() == min_i(
                ring_samples(old(self).delay_left).len() + input.spec_length(),
                WINDOW as int,
            ),
            ring_samples(final(self).delay_right).len() == min_i(
                ring_samples(old(self).delay_right).len() + input.spec_length(),
                WINDOW as int,
            ),
            ring_samples(final(self).delay_left) == stream_tail(
                ring_samples(old(self).delay_left) + left_of(*input),
                WINDOW as int,
            ),
            ring_samples(final(self).delay_right) == stream_tail(
                ring_samples(old(self).delay_right) + right_of(*input),
                WINDOW as int,
            ),
            *final(self) == (NoiseReduction {
                delay_left: final(self).delay_left,
                delay_right: final(self).delay_right,
                ..*old(self)
            }),
    {
        let (l, r): (Vec<i64>, Vec<i64>) = input.read_stereo();
        proof {
            assert(l@ =~= left_of(*input));
            assert(r@ =~= right_of(*input));
        }
        ring_extend(&mut self.delay_left, l.as_slice());
        ring_extend(&mut self.delay_right, r.as_slice());
    }

    /// Both delay rings hold a full window.
    pub fn is_ready(&self) -> (r: bool)
        ensures
            r == (ring_samples(self.delay_left).len() == WINDOW && ring_samples(
                self.delay_right,
            ).len() == WINDOW),
    {
        let a: bool = ring_is_full(&self.delay_left);
        let b: bool = ring_is_full(&self.delay_right);
        a && b
    }

    /// Linearize both delay rings into flat windows, oldest first.
    pub fn windows(&self) -> (r: (Vec<i64>, Vec<i64>))
        requires
            self.wf(),
            ring_samples(self.delay_left).len() == WINDOW,
            ring_samples(self.delay_right).len() == WINDOW,
        ensures
            r.0@ == ring_samples(self.delay_left),
            r.1@ == ring_samples(self.delay_right),
            all_bounded(r.0@),
            all_bounded(r.1@),
    {
        let mut l: Vec<i64> = Vec::new();
        let mut r: Vec<i64> = Vec::new();
        let mut i: usize = 0;
        while i < WINDOW
            invariant
                i <= WINDOW,
                l@.len() == i,
                r@.len() == i,
            decreases WINDOW - i,
        {
            l.push(0);
            r.push(0);
            i = i + 1;
        }
        copy_contiguous(&self.delay_left, &mut l);
        copy_contiguous(&self.delay_right, &mut r);
        (l, r)
    }
}

impl NoiseReduction {
    /// The spectral deviation of one window pair, used by the host to
    /// derive the variance attenuation factor.
    pub fn spectral_variance(&self, left: &Vec<(i64, i64)>, right: &Vec<(i64, i64)>) -> (r: i64)
        requires
            left@.len() == HBINS,
            right@.len() == HBINS,
            bins_bounded(left@),
            bins_bounded(right@),
        ensures
            r == nr_variance(left@, right@),
            0 <= r <= SAT_MAX,
    {
        let l0: i64 = fnorm(left[0].0, left[0].1);
        let r0: i64 = fnorm(right[0].0, right[0].1);
        let off: i64 = favg2(l0, r0);
        let mut sum: i128 = 0;
        let mut ssq: i128 = 0;
        let mut i: usize = 0;
        while i < HBINS
            invariant
                i <= HBINS,
                left@.len() == HBINS,
                right@.len() == HBINS,
                bins_bounded(left@),
                bins_bounded(right@),
                off == nr_offset(left@, right@),
                -(SAT_MAX as int) <= off <= SAT_MAX,
                sum == nr_sum_x(left@, right@, off as int, i as int),
                ssq == nr_sum_x_sq(left@, right@, off as int, i as int),
                -(i as int) * 2 * (SAT_MAX as int) <= sum <= (i as int) * 2 * (SAT_MAX as int),
                0 <= ssq <= (i as int) * 4 * (SAT_MAX as int) * (SAT_MAX as int),
            decreases HBINS - i,
        {
            let ln: i64 = fnorm(left[i].0, left[i].1);
            let rn: i64 = fnorm(right[i].0, right[i].1);
            let x: i64 = favg2(ln, rn) - off;
            proof {
                assert(-(2 * (SAT_MAX as int)) <= x as int <= 2 * (SAT_MAX as int));
                assert((x as int) * (x as int) <= 4 * (SAT_MAX as int) * (SAT_MAX as int)
                    && 0 <= (x as int) * (x as int)) by (nonlinear_arith)
                    requires
                        -(2 * (SAT_MAX as int)) <= x as int <= 2 * (SAT_MAX as int),
                ;
            }
            sum = sum + (x as i128);
            ssq = ssq + (x as i128) * (x as i128);
            i = i + 1;
        }
        let mean: i128 = fdivt_i128(sum, HBINS as u128);
        proof {
            assert(2049 * 2 * (SAT_MAX as int) == 288371113640067072int);
            assert(abs_i(mean as int) <= 288371113640067072int);
            lemma_mul_abs_bound(
                mean as int,
                mean as int,
                288371113640067072int,
                288371113640067072int,
            );
            assert(288371113640067072int * 288371113640067072int
                == 83157899182012477304268128658653184int);
            vstd::arithmetic::div_mod::lemma_multiply_divide_le(
                ssq as int,
                HBINS as int,
                4 * (SAT_MAX as int) * (SAT_MAX as int),
            );
            assert(4 * (SAT_MAX as int) * (SAT_MAX as int)
                == 19807040628566084398385987584int);
        }
        let msq: i128 = mean * mean;
        let q: u128 = (ssq as u128) / (HBINS as u128);
        proof {
            assert(q as int == (ssq as int) / (HBINS as int));
            assert(0 <= (mean as int) * (mean as int)) by (nonlinear_arith);
        }
        let v: i128 = (q as i128) - msq;
        if v < 0 {
            0
        } else {
            let s: u64 = isqrt_u128(v as u128);
            proof {
                lemma_sqrt_floor_is(v as int, s as int);
            }
            if s > SAT_MAX as u64 {
                SAT_MAX
            } else {
                s as i64
            }
        }
    }
}

/// The persistent estimate written back for one bin.
pub open spec fn nr_new_persist(l: (i64, i64), r: (i64, i64), p: int, en: bool, f: int) -> int {
    if en {
        let c = nr_pick(l, r);
        nr_persist_step(p, q_norm(c.0 as int, c.1 as int), f)
    } else {
        0
    }
}

/// The persistent estimate is an exponential tracker: it steps from `p`
/// toward the window magnitude `m` but never past it, drops to `m` in one
/// window when `m` is below it, makes strict progress while the remaining
/// gap is resolvable at the smoothing factor, and stays in range.
pub proof fn lemma_persistent_tracks_magnitude(p: int, m: int, f: int)
    requires
        0 <= p <= SAT_MAX,
        0 <= m <= SAT_MAX,
        0 <= f <= SCALE,
    ensures
        p <= m ==> p <= nr_persist_step(p, m, f) <= m,
        p > m ==> nr_persist_step(p, m, f) == m,
        p <= m && (m - p) * f >= SCALE ==> nr_persist_step(p, m, f) >= p + 1,
        0 <= nr_persist_step(p, m, f) <= SAT_MAX,
{
    let a: int = min_i(p, m);
    let d: int = q_sub(m, a);
    assert(d == m - a);
    let s: int = q_mul(d, f);
    assert(abs_i(d) == d && abs_i(f) == f);
    assert(0 <= d * f <= (SAT_MAX as int) * (SCALE as int)) by (nonlinear_arith)
        requires
            0 <= d <= SAT_MAX as int,
            0 <= f <= SCALE as int,
    ;
    vstd::arithmetic::div_mod::lemma_div_pos_is_pos(d * f, SCALE as int);
    if f == 0 {
        assert(d * 0 == 0);
        assert(s == 0);
    } else {
        lemma_ratio_le_one(d, f, SCALE as int);
        assert(d * f / (SCALE as int) <= d);
    }
    assert(s == d * f / (SCALE as int));
    assert(0 <= s <= d);
    assert(nr_persist_step(p, m, f) == q_add(a, s));
    assert(a + s <= m);
    if p <= m && (m - p) * f >= SCALE {
        vstd::arithmetic::div_mod::lemma_div_is_ordered(SCALE as int, d * f, SCALE as int);
        vstd::arithmetic::div_mod::lemma_div_by_self(SCALE as int);
        assert(s >= 1);
    }
}

/// Once the persistent estimate has converged onto a bin's magnitude, the
/// magnitude-domain subtraction silences that bin exactly.
pub proof fn lemma_converged_subtraction_silences(p: int, b: (i64, i64))
    requires
        q_norm(b.0 as int, b.1 as int) == p,
        p != 0,
    ensures
        q_mag_sub(p, b) == (0int, 0int),
{
    let m: int = q_norm(b.0 as int, b.1 as int);
    assert(q_sub(m, p) == 0);
    assert(abs_i(0) * (SCALE as int) == 0);
    assert(q_div(0, m) == 0);
    assert(abs_i(b.0 as int) * abs_i(0) == 0) by (nonlinear_arith);
    assert(abs_i(b.1 as int) * abs_i(0) == 0) by (nonlinear_arith);
    assert(q_mul(b.0 as int, 0) == 0);
    assert(q_mul(b.1 as int, 0) == 0);
}

/// A silent window is a fixed point: with zero input bins and zero
/// persistent state, the edited bin and the new persistent estimate are
/// both exactly zero, whatever the settings.
pub proof fn lemma_silent_window_stays_silent(en_p: bool, f: int, en_v: bool, vs: int)
    ensures
        nr_bin((0i64, 0i64), (0i64, 0i64), 0, en_p, f, en_v, vs) == (0int, 0int),
        nr_new_persist((0i64, 0i64), (0i64, 0i64), 0, en_p, f) == 0,
{
    assert(is_sqrt_floor(0, 0));
    lemma_sqrt_floor_is(0, 0);
    assert(q_norm(0, 0) == 0);
    let c: (i64, i64) = nr_pick((0i64, 0i64), (0i64, 0i64));
    assert(c == (0i64, 0i64));
    assert(q_sub(0, 0) == 0);
    assert(abs_i(0) * abs_i(f) == 0) by (nonlinear_arith);
    assert(q_mul(0, f) == 0);
    assert(q_lerp(0, 0, f) == 0);
    assert(nr_persist_step(0, 0, f) == 0);
    assert(q_mag_sub(0, c) == (0int, 0int)) by {
        assert(q_norm(c.0 as int, c.1 as int) == 0);
    }
    assert(abs_i(0) * (SCALE as int) == 0);
    assert(q_div(0, ADJ_Q as int) == 0);
    assert(abs_i(0) * abs_i(vs) == 0) by (nonlinear_arith);
    assert(q_mul(0, vs) == 0);
}

/// A wholly silent window is a fixed point of the spectral edit: with every
/// input bin zero and the persistent store zero, every edited bin is zero
/// and the store stays zero, whatever the settings. Driving the unit with
/// silence therefore produces exactly silence.
pub proof fn lemma_nr_silent_spectrum(
    l: Seq<(i64, i64)>,
    r: Seq<(i64, i64)>,
    p: Seq<i64>,
    en_p: bool,
    f: int,
    en_v: bool,
    vs: int,
)
    requires
        l.len() == r.len() == p.len(),
        crate::spectrum::bins_zero(l),
        crate::spectrum::bins_zero(r),
        all_zero(p),
    ensures
        forall|i: int|
            0 <= i < l.len() ==> #[trigger] nr_bin(l[i], r[i], p[i] as int, en_p, f, en_v, vs) == (
            0int, 0int),
        forall|i: int|
            0 <= i < l.len() ==> #[trigger] nr_new_persist(l[i], r[i], p[i] as int, en_p, f) == 0,
{
    assert forall|i: int| 0 <= i < l.len() implies #[trigger] nr_bin(
        l[i],
        r[i],
        p[i] as int,
        en_p,
        f,
        en_v,
        vs,
    ) == (0int, 0int) by {
        lemma_silent_window_stays_silent(en_p, f, en_v, vs);
    }
    assert forall|i: int| 0 <= i < l.len() implies #[trigger] nr_new_persist(
        l[i],
        r[i],
        p[i] as int,
        en_p,
        f,
    ) == 0 by {
        lemma_silent_window_stays_silent(en_p, f, en_v, vs);
    }
}

/// The noise-gate fades pass silence through unchanged: every fade of a zero
/// sample is zero.
pub proof fn lemma_gate_preserves_silence(i: int)
    ensures
        gate_hold(0) == 0,
        gate_engage(0, i) == 0,
        gate_release(0, i) == 0,
{
    assert(0 * (WINDOW as int) == 0) by (nonlinear_arith);
}

impl NoiseReduction {
    /// Set whether low spectral variance attenuates the window.
    pub fn set_var_enable(&mut self, v: bool)
        requires
            old(self).wf(),
        ensures
            final(self).wf(),
            *final(self) == (NoiseReduction { var_enable: v, ..*old(self) }),
    {
        self.var_enable = v;
    }

    /// Set the variance attenuation strength.
    pub fn set_var_adj(&mut self, v: i64)
        requires
            old(self).wf(),
            0 <= v <= 10 * SCALE,
        ensures
            final(self).wf(),
            *final(self) == (NoiseReduction { var_adj_q: v, ..*old(self) }),
    {
        self.var_adj_q = v;
    }

    /// Set whether persistent magnitudes are tracked and subtracted.
    pub fn set_persist_enable(&mut self, v: bool)
        requires
            old(self).wf(),
        ensures
            final(self).wf(),
            *final(self) == (NoiseReduction { persist_enable: v, ..*old(self) }),
    {
        self.persist_enable = v;
    }

    /// Set the persistence smoothing factor.
    pub fn set_persist_lerp(&mut self, v: i64)
        requires
            old(self).wf(),
            SCALE / 100 <= v <= SCALE,
        ensures
            final(self).wf(),
            *final(self) == (NoiseReduction { persist_lerp_q: v, ..*old(self) }),
    {
        self.persist_lerp_q = v;
    }

    /// Set whether the noise gate runs.
    pub fn set_noise_gate_enable(&mut self, v: bool)
        requires
            old(self).wf(),
        ensures
            final(self).wf(),
            *final(self) == (NoiseReduction { noise_gate_enable: v, ..*old(self) }),
    {
        self.noise_gate_enable = v;
    }

    /// Set the noise-gate threshold in dB.
    pub fn set_noise_gate_req(&mut self, v: i64)
        requires
            old(self).wf(),
            -60 * SCALE <= v <= 20 * SCALE,
        ensures
            final(self).wf(),
            *final(self) == (NoiseReduction { noise_gate_req_q: v, ..*old(self) }),
    {
        self.noise_gate_req_q = v;
    }
}

impl NoiseReduction {
    /// The spectral edit for one window pair: per bin, keep the quieter
    /// channel, track and subtract the persistent magnitude, apply the
    /// forward-half normalization and the variance attenuation factor, and
    /// pin the two Hermitian edge bins to real values.
    pub fn spectral_edit(&mut self, left: &Vec<(i64, i64)>, right: &Vec<(i64, i64)>,
        var_scale_q: i64) -> (out: Vec<(i64, i64)>)
        requires
            old(self).wf(),
            left@.len() == HBINS,
            right@.len() == HBINS,
            bins_bounded(left@),
            bins_bounded(right@),
            bounded(var_scale_q),
        ensures
            out@.len() == HBINS,
            bins_bounded(out@),
            forall|j: int|
                0 < j < HBINS - 1 ==> (#[trigger] out@[j].0 as int, out@[j].1 as int) == nr_bin(
                    left@[j],
                    right@[j],
                    old(self).persistent@[j] as int,
                    old(self).persist_enable,
                    old(self).persist_lerp_q as int,
                    old(self).var_enable,
                    var_scale_q as int,
                ),
            out@[0].0 as int == nr_bin(
                left@[0],
                right@[0],
                old(self).persistent@[0] as int,
                old(self).persist_enable,
                old(self).persist_lerp_q as int,
                old(self).var_enable,
                var_scale_q as int,
            ).0 && out@[0].1 == 0i64,
            out@[HBINS - 1].0 as int == nr_bin(
                left@[HBINS - 1],
                right@[HBINS - 1],
                old(self).persistent@[HBINS - 1] as int,
                old(self).persist_enable,
                old(self).persist_lerp_q as int,
                old(self).var_enable,
                var_scale_q as int,
            ).0 && out@[HBINS - 1].1 == 0i64,
            final(self).persistent@.len() == HBINS,
            forall|j: int|
                0 <= j < HBINS ==> #[trigger] final(self).persistent@[j] as int == nr_new_persist(
                    left@[j],
                    right@[j],
                    old(self).persistent@[j] as int,
                    old(self).persist_enable,
                    old(self).persist_lerp_q as int,
                ),
            final(self).wf(),
            *final(self) == (NoiseReduction { persistent: final(self).persistent, ..*old(self) }),
    {
        let mut out: Vec<(i64, i64)> = Vec::new();
        let en_p: bool = self.persist_enable;
        let en_v: bool = self.var_enable;
        let f: i64 = self.persist_lerp_q;
        let mut i: usize = 0;
        while i < HBINS
            invariant
                i <= HBINS,
                left@.len() == HBINS,
                right@.len() == HBINS,
                bins_bounded(left@),
                bins_bounded(right@),
                bounded(var_scale_q),
                en_p == old(self).persist_enable,
                en_v == old(self).var_enable,
                f == old(self).persist_lerp_q,
                0 <= f <= SCALE,
                out@.len() == i,
                bins_bounded(out@),
                self.persistent@.len() == HBINS,
                persist_ok(self.persistent@),
                forall|j: int|
                    0 <= j < i ==> (#[trigger] out@[j].0 as int, out@[j].1 as int) == nr_bin(
                        left@[j],
                        right@[j],
                        old(self).persistent@[j] as int,
                        en_p,
                        f as int,
                        en_v,
                        var_scale_q as int,
                    ),
                forall|j: int|
                    0 <= j < i ==> #[trigger] self.persistent@[j] as int == nr_new_persist(
                        left@[j],
                        right@[j],
                        old(self).persistent@[j] as int,
                        en_p,
                        f as int,
                    ),
                forall|j: int|
                    i <= j < HBINS ==> #[trigger] self.persistent@[j] == old(self).persistent@[j],
                self.delay_left == old(self).delay_left,
                self.delay_right == old(self).delay_right,
                self.overlap == old(self).overlap,
                self.was_gated == old(self).was_gated,
                self.silence == old(self).silence,
                self.var_enable == old(self).var_enable,
                self.var_adj_q == old(self).var_adj_q,
                self.persist_enable == old(self).persist_enable,
                self.persist_lerp_q == old(self).persist_lerp_q,
                self.noise_gate_enable == old(self).noise_gate_enable,
                self.noise_gate_req_q == old(self).noise_gate_req_q,
                old(self).wf(),
            decreases HBINS - i,
        {
            let lb: (i64, i64) = left[i];
            let rb: (i64, i64) = right[i];
            let lsq: u128 = fnorm_sqr(lb.0, lb.1);
            let rsq: u128 = fnorm_sqr(rb.0, rb.1);
            let c: (i64, i64) = if lsq > rsq {
                rb
            } else {
                lb
            };
            let pold: i64 = self.persistent[i];
            let (b1, p2): ((i64, i64), i64) = if en_p {
                let m: i64 = fnorm(c.0, c.1);
                proof {
                    lemma_persistent_tracks_magnitude(pold as int, m as int, f as int);
                }
                let a: i64 = if pold < m {
                    pold
                } else {
                    m
                };
                let pn: i64 = flerp(a, m, f);
                (mag_sub(pn, c), pn)
            } else {
                (c, 0)
            };
            let d0: i64 = fdiv(b1.0, ADJ_Q);
            let d1: i64 = fdiv(b1.1, ADJ_Q);
            let e: (i64, i64) = if en_v {
                (fmul(d0, var_scale_q), fmul(d1, var_scale_q))
            } else {
                (d0, d1)
            };
            out.push(e);
            self.persistent[i] = p2;
            i = i + 1;
        }
        let first: (i64, i64) = out[0];
        out[0] = (first.0, 0);
        let last: (i64, i64) = out[HBINS - 1];
        out[HBINS - 1] = (last.0, 0);
        out
    }

    /// Apply the noise-gate fades to an inverted window and update the
    /// gate's memory to this window's decision. `gate_below` says whether
    /// the level was below the threshold.
    pub fn apply_gate(&mut self, time: &mut Vec<i64>, gate_below: bool)
        requires
            old(self).wf(),
            old(time)@.len() == WINDOW,
            all_bounded(old(time)@),
        ensures
            final(time)@.len() == WINDOW,
            all_bounded(final(time)@),
            old(self).noise_gate_enable && gate_below && old(self).was_gated ==> forall|j: int|
                0 <= j < WINDOW ==> #[trigger] final(time)@[j] as int == gate_hold(
                    old(time)@[j] as int,
                ),
            old(self).noise_gate_enable && gate_below && !old(self).was_gated ==> forall|j: int|
                0 <= j < WINDOW ==> #[trigger] final(time)@[j] as int == gate_engage(
                    old(time)@[j] as int,
                    j,
                ),
            !(old(self).noise_gate_enable && gate_below) && old(self).was_gated ==> forall|j: int|
                0 <= j < WINDOW ==> #[trigger] final(time)@[j] as int == gate_release(
                    old(time)@[j] as int,
                    j,
                ),
            !(old(self).noise_gate_enable && gate_below) && !old(self).was_gated ==> final(time)@
                == old(time)@,
            final(self).was_gated == (old(self).noise_gate_enable && gate_below),
            final(self).wf(),
            *final(self) == (NoiseReduction { was_gated: final(self).was_gated, ..*old(self) }),
    {
        let gate: bool = self.noise_gate_enable && gate_below;
        if gate && self.was_gated {
            let mut i: usize = 0;
            while i < WINDOW
                invariant
                    i <= WINDOW,
                    time@.len() == WINDOW,
                    all_bounded(time@),
                    forall|j: int|
                        0 <= j < i ==> #[trigger] time@[j] as int == gate_hold(
                            old(time)@[j] as int,
                        ),
                    forall|j: int| i <= j < WINDOW ==> #[trigger] time@[j] == old(time)@[j],
                decreases WINDOW - i,
            {
                let x: i64 = time[i];
                time[i] = fmul_div(x, 1, 8);
                i = i + 1;
            }
        } else if gate {
            let mut i: usize = 0;
            while i < WINDOW
                invariant
                    i <= WINDOW,
                    time@.len() == WINDOW,
                    all_bounded(time@),
                    forall|j: int|
                        0 <= j < i ==> #[trigger] time@[j] as int == gate_engage(
                            old(time)@[j] as int,
                            j,
                        ),
                    forall|j: int| i <= j < WINDOW ==> #[trigger] time@[j] == old(time)@[j],
                decreases WINDOW - i,
            {
                let x: i64 = time[i];
                time[i] = fmul_div(x, WINDOW as u64, (WINDOW as u64) + 7 * (i as u64));
                i = i + 1;
            }
        } else if self.was_gated {
            let mut i: usize = 0;
            while i < WINDOW
                invariant
                    i <= WINDOW,
                    time@.len() == WINDOW,
                    all_bounded(time@),
                    forall|j: int|
                        0 <= j < i ==> #[trigger] time@[j] as int == gate_release(
                            old(time)@[j] as int,
                            j,
                        ),
                    forall|j: int| i <= j < WINDOW ==> #[trigger] time@[j] == old(time)@[j],
                decreases WINDOW - i,
            {
                let x: i64 = time[i];
                time[i] = fmul_div(
                    x,
                    WINDOW as u64,
                    (WINDOW as u64) + 7 * ((WINDOW as u64) - (i as u64)),
                );
                i = i + 1;
            }
        }
        self.was_gated = gate;
        proof {
            if !(old(self).noise_gate_enable && gate_below) && !old(self).was_gated {
                assert(time@ =~= old(time)@);
            }
        }
    }

    /// Apply the remaining half of the transform normalization to an
    /// inverted window.
    pub fn normalize_window(&self, time: &mut Vec<i64>)
        requires
            old(time)@.len() == WINDOW,
            all_bounded(old(time)@),
        ensures
            final(time)@.len() == WINDOW,
            all_bounded(final(time)@),
            forall|j: int|
                0 <= j < WINDOW ==> #[trigger] final(time)@[j] as int == q_div(
                    old(time)@[j] as int,
                    ADJ_Q as int,
                ),
    {
        let mut i: usize = 0;
        while i < WINDOW
            invariant
                i <= WINDOW,
                time@.len() == WINDOW,
                all_bounded(time@),
                forall|j: int|
                    0 <= j < i ==> #[trigger] time@[j] as int == q_div(
                        old(time)@[j] as int,
                        ADJ_Q as int,
                    ),
                forall|j: int| i <= j < WINDOW ==> #[trigger] time@[j] == old(time)@[j],
            decreases WINDOW - i,
        {
            let x: i64 = time[i];
            time[i] = fdiv(x, ADJ_Q);
            i = i + 1;
        }
    }
}

} // verus!
