//! Cross-synthesis vocoder: the sidechain ("carrier") spectrum is
//! normalized by its own peak magnitude, and each signal bin is rescaled by
//! the normalized carrier magnitude at a band-shifted index, imposing the
//! carrier's spectral envelope onto the signal.
//!
//! One processing call runs `feed_signal` and `feed_carrier` (or
//! `zero_carrier` while the sidechain is disconnected), and once `is_ready`
//! holds: `windows`, the host's forward transforms, `spectral_edit`, the
//! inverse transform, `normalize_window`, and `overlap.emit`.
use vstd::prelude::*;
use circular_buffer::CircularBuffer;
use crate::dsp::{track_silence, DspType, Parameter, ParameterType, ProcessResult};
use crate::fixed::{
    all_bounded, bounded, fdiv, fmul, fnorm_sqr, is_sqrt_floor, isqrt_u128, lemma_sqrt_floor_is,
    q_div, q_mul, q_norm, sat_i, sqrt_floor, SAT_MAX, SCALE,
};
use crate::noise_reduction::HBINS;
use crate::pipeline::{all_zero, OverlapAdd};
use crate::ring::{
    copy_contiguous, ring_extend, ring_fill, ring_is_full, ring_new, ring_samples, WINDOW,
};
use crate::signal::{mono_of, SignalConst};
use crate::spectrum::bins_bounded;
use crate::cassette::min_i;

verus! {

/// The largest squared bin magnitude among the first `k` bins.
pub open spec fn max_mag_sqr(s: Seq<(i64, i64)>, k: int) -> int
    decreases k,
{
    if k <= 0 {
        0
    } else {
        let m = max_mag_sqr(s, k - 1);
        let c = s[k - 1].0 * s[k - 1].0 + s[k - 1].1 * s[k - 1].1;
        if c > m {
            c
        } else {
            m
        }
    }
}

/// The peak bin magnitude of a spectrum.
pub open spec fn q_max_mag(s: Seq<(i64, i64)>) -> int {
    sat_i(sqrt_floor(max_mag_sqr(s, s.len() as int)))
}

/// A carrier bin normalized by the peak magnitude; a silent carrier stays
/// silent.
pub open spec fn voc_norm_carrier(c: (i64, i64), mx: int) -> (int, int) {
    if mx == 0 {
        (0, 0)
    } else {
        (q_div(c.0 as int, mx), q_div(c.1 as int, mx))
    }
}

/// One output bin: the signal bin at the signal-shifted index, scaled by
/// the normalized carrier magnitude at the carrier-shifted index; zero when
/// either shifted index leaves the spectrum.
pub open spec fn voc_bin(
    sig: Seq<(i64, i64)>,
    car: Seq<(i64, i64)>,
    i: int,
    soff: int,
    coff: int,
) -> (int, int) {
    let mx = q_max_mag(car);
    let si = i + soff;
    let ci = i + coff;
    if si < 0 || si >= HBINS || ci < 0 || ci >= HBINS {
        (0, 0)
    } else {
        let cn = voc_norm_carrier(car[ci], mx);
        let fct = q_norm(cn.0, cn.1);
        (q_mul(sig[si].0 as int, fct), q_mul(sig[si].1 as int, fct))
    }
}

/// Cross-synthesis unit over a primary signal and a sidechain carrier.
pub struct Vocoder {
    /// Ring of the most recent carrier samples.
    pub delay_carrier: CircularBuffer<4096, i64>,
    /// Ring of the most recent signal samples.
    pub delay_signal: CircularBuffer<4096, i64>,
    /// Idle samples seen since the last active input.
    pub silence: usize,
    /// Overlap-add residual.
    pub overlap: OverlapAdd,
    /// Whether a sidechain input is connected.
    pub sidechain_enabled: bool,
    /// Band shift applied when sampling the carrier, in bins.
    pub carrier_offset: i64,
    /// Band shift applied when sampling the signal, in bins.
    pub signal_offset: i64,
}

impl Vocoder {
    /// Structural invariant: bounded history and residual, offsets within
    /// their declared range.
    pub open spec fn wf(self) -> bool {
        &&& all_bounded(ring_samples(self.delay_carrier))
        &&& all_bounded(ring_samples(self.delay_signal))
        &&& self.overlap.wf()
        &&& -80 <= self.carrier_offset <= 80
        &&& -80 <= self.signal_offset <= 80
    }

    pub fn name() -> (r: &'static str)
        ensures
            r@ == "Vocoder"@,
    {
        "Vocoder"
    }

    pub fn version() -> (r: u32)
        ensures
            r == 1,
    {
        1
    }

    pub fn ty() -> (r: DspType)
        ensures
            r == DspType::Effect,
    {
        DspType::Effect
    }

    /// Static parameter metadata; ranges match the setters' preconditions
    /// and the defaults match `create`.
    pub fn parameters() -> (r: Vec<Parameter>)
        ensures
            r@.len() == 3,
            r@[0].name@ == "sidechain"@ && r@[0].ty == ParameterType::Sidechain,
            r@[1].name@ == "carrier_offset"@ && r@[1].unit@ == "bands"@ && r@[1].ty == (
            ParameterType::Int { min: -80i64, max: 80i64, default: 0i64, max_is_inf: false }),
            r@[2].name@ == "signal_offset"@ && r@[2].unit@ == "bands"@ && r@[2].ty == (
            ParameterType::Int { min: -80i64, max: 80i64, default: 0i64, max_is_inf: false }),
    {
        let mut v: Vec<Parameter> = Vec::new();
        v.push(Parameter::new("sidechain", ParameterType::Sidechain));
        v.push(
            Parameter::with_unit(
                "carrier_offset",
                "bands",
                ParameterType::Int { min: -80, max: 80, default: 0, max_is_inf: false },
            ),
        );
        v.push(
            Parameter::with_unit(
                "signal_offset",
                "bands",
                ParameterType::Int { min: -80, max: 80, default: 0, max_is_inf: false },
            ),
        );
        v
    }

    /// A unit with empty history and zero offsets.
    pub fn create() -> (r: Vocoder)
        ensures
            r.wf(),
            ring_samples(r.delay_carrier).len() == 0,
            ring_samples(r.delay_signal).len() == 0,
            all_zero(r.overlap.residual@),
            !r.sidechain_enabled,
            r.carrier_offset == 0,
            r.signal_offset == 0,
            r.silence == 0,
    {
        Vocoder {
            delay_carrier: ring_new(),
            delay_signal: ring_new(),
            silence: 0,
            overlap: OverlapAdd::new(),
            sidechain_enabled: false,
            carrier_offset: 0,
            signal_offset: 0,
        }
    }

    /// Zero both rings and the residual; parameters keep their values.
    pub fn reset(&mut self)
        requires
            old(self).wf(),
        ensures
            final(self).wf(),
            all_zero(ring_samples(final(self).delay_carrier)),
            all_zero(ring_samples(final(self).delay_signal)),
            ring_samples(final(self).delay_carrier).len() == WINDOW,
            ring_samples(final(self).delay_signal).len() == WINDOW,
            all_zero(final(self).overlap.residual@),
            final(self).silence == 0,
    {
        ring_fill(&mut self.delay_carrier, 0);
        ring_fill(&mut self.delay_signal, 0);
        self.overlap.reset();
        self.silence = 0;
    }

    /// Skip processing only after a full window of uninterrupted silence.
    pub fn should_process(&mut self, idle: bool, incoming_length: usize) -> (r: ProcessResult)
        requires
            old(self).wf(),
        ensures
            final(self).wf(),
            !idle ==> final(self).silence == 0 && r == ProcessResult::Continue,
            idle && old(self).silence + incoming_length <= usize::MAX ==> final(self).silence
                == old(self).silence + incoming_length,
            idle && old(self).silence + incoming_length > usize::MAX ==> final(self).silence
                == usize::MAX,
            r == if final(self).silence >= WINDOW {
                ProcessResult::SkipSilent
            } else {
                ProcessResult::Continue
            },
            *final(self) == (Vocoder { silence: final(self).silence, ..*old(self) }),
    {
        let (s, full): (usize, bool) = track_silence(self.silence, idle, incoming_length, WINDOW);
        self.silence = s;
        if full {
            ProcessResult::SkipSilent
        } else {
            ProcessResult::Continue
        }
    }

    /// Stream one block's mono downmix into the signal ring.
    pub fn feed_signal(&mut self, input: &SignalConst)
        requires
            old(self).wf(),
            input.wf(),
        ensures
            final(self).wf(),
            ring_samples(final(self).delay_signal).len() == min_i(
                ring_samples(old(self).delay_signal).len() + input.spec_length(),
                WINDOW as int,
            ),
            ring_samples(final(self).delay_signal) == crate::ring::stream_tail(
                ring_samples(old(self).delay_signal) + mono_of(*input),
                WINDOW as int,
            ),
            *final(self) == (Vocoder { delay_signal: final(self).delay_signal, ..*old(self) }),
    {
        let mono: Vec<i64> = input.read_mono();
        proof {
            assert(mono@ =~= mono_of(*input));
        }
        ring_extend(&mut self.delay_signal, mono.as_slice());
    }

    /// Stream one carrier block's mono downmix into the carrier ring.
    pub fn feed_carrier(&mut self, input: &SignalConst)
        requires
            old(self).wf(),
            input.wf(),
        ensures
            final(self).wf(),
            ring_samples(final(self).delay_carrier).len() == min_i(
                ring_samples(old(self).delay_carrier).len() + input.spec_length(),
                WINDOW as int,
            ),
            ring_samples(final(self).delay_carrier) == crate::ring::stream_tail(
                ring_samples(old(self).delay_carrier) + mono_of(*input),
                WINDOW as int,
            ),
            *final(self) == (Vocoder { delay_carrier: final(self).delay_carrier, ..*old(self) }),
    {
        let mono: Vec<i64> = input.read_mono();
        proof {
            assert(mono@ =~= mono_of(*input));
        }
        ring_extend(&mut self.delay_carrier, mono.as_slice());
    }

    /// With no sidechain connected, the carrier history is held at zero.
    pub fn zero_carrier(&mut self)
        requires
            old(self).wf(),
        ensures
            final(self).wf(),
            all_zero(ring_samples(final(self).delay_carrier)),
            ring_samples(final(self).delay_carrier).len() == WINDOW,
            *final(self) == (Vocoder { delay_carrier: final(self).delay_carrier, ..*old(self) }),
    {
        ring_fill(&mut self.delay_carrier, 0);
    }

    /// Both rings hold a full window.
    pub fn is_ready(&self) -> (r: bool)
        ensures
            r == (ring_samples(self.delay_signal).len() == WINDOW && ring_samples(
                self.delay_carrier,
            ).len() == WINDOW),
    {
        let a: bool = ring_is_full(&self.delay_signal);
        let b: bool = ring_is_full(&self.delay_carrier);
        a && b
    }

    /// Linearize both rings into flat windows, signal first.
    pub fn windows(&self) -> (r: (Vec<i64>, Vec<i64>))
        requires
            self.wf(),
            ring_samples(self.delay_signal).len() == WINDOW,
            ring_samples(self.delay_carrier).len() == WINDOW,
        ensures
            r.0@ == ring_samples(self.delay_signal),
            r.1@ == ring_samples(self.delay_carrier),
            all_bounded(r.0@),
            all_bounded(r.1@),
    {
        let mut s: Vec<i64> = Vec::new();
        let mut c: Vec<i64> = Vec::new();
        let mut i: usize = 0;
        while i < WINDOW
            invariant
                i <= WINDOW,
                s@.len() == i,
                c@.len() == i,
            decreases WINDOW - i,
        {
            s.push(0);
            c.push(0);
            i = i + 1;
        }
        copy_contiguous(&self.delay_signal, &mut s);
        copy_contiguous(&self.delay_carrier, &mut c);
        (s, c)
    }

    /// The peak bin magnitude of a spectrum.
    pub fn peak_magnitude(&self, car: &Vec<(i64, i64)>) -> (r: i64)
        requires
            car@.len() == HBINS,
            bins_bounded(car@),
        ensures
            r as int == q_max_mag(car@),
            0 <= r <= SAT_MAX,
    {
        let mut best: u128 = 0;
        let mut i: usize = 0;
        while i < HBINS
            invariant
                i <= HBINS,
                car@.len() == HBINS,
                bins_bounded(car@),
                best == max_mag_sqr(car@, i as int),
                best <= 9903520314283042199192993792,
            decreases HBINS - i,
        {
            let b: (i64, i64) = car[i];
            let sq: u128 = fnorm_sqr(b.0, b.1);
            proof {
                assert((b.0 as int) * (b.0 as int) <= (SAT_MAX as int) * (SAT_MAX as int)
                    && (b.1 as int) * (b.1 as int) <= (SAT_MAX as int) * (SAT_MAX as int)
                    && 0 <= (b.0 as int) * (b.0 as int) && 0 <= (b.1 as int) * (b.1 as int))
                    by (nonlinear_arith)
                    requires
                        -(SAT_MAX as int) <= b.0 as int <= SAT_MAX as int,
                        -(SAT_MAX as int) <= b.1 as int <= SAT_MAX as int,
                ;
            }
            if sq > best {
                best = sq;
            }
            i = i + 1;
        }
        let s: u64 = isqrt_u128(best);
        proof {
            lemma_sqrt_floor_is(best as int, s as int);
        }
        if s > SAT_MAX as u64 {
            SAT_MAX
        } else {
            s as i64
        }
    }

    /// The spectral edit: rescale each signal bin by the normalized carrier
    /// magnitude at the shifted indices, zeroing bins whose shifted index
    /// leaves the spectrum, and pin the two Hermitian edge bins to real
    /// values.
    pub fn spectral_edit(&self, sig: &Vec<(i64, i64)>, car: &Vec<(i64, i64)>) -> (out: Vec<
        (i64, i64),
    >)
        requires
            self.wf(),
            sig@.len() == HBINS,
            car@.len() == HBINS,
            bins_bounded(sig@),
            bins_bounded(car@),
        ensures
            out@.len() == HBINS,
            bins_bounded(out@),
            forall|j: int|
                0 < j < HBINS - 1 ==> (#[trigger] out@[j].0 as int, out@[j].1 as int) == voc_bin(
                    sig@,
                    car@,
                    j,
                    self.signal_offset as int,
                    self.carrier_offset as int,
                ),
            out@[0].0 as int == voc_bin(
                sig@,
                car@,
                0,
                self.signal_offset as int,
                self.carrier_offset as int,
            ).0 && out@[0].1 == 0i64,
            out@[HBINS - 1].0 as int == voc_bin(
                sig@,
                car@,
                HBINS - 1,
                self.signal_offset as int,
                self.carrier_offset as int,
            ).0 && out@[HBINS - 1].1 == 0i64,
    {
        let mx: i64 = self.peak_magnitude(car);
        let mut out: Vec<(i64, i64)> = Vec::new();
        let soff: i64 = self.signal_offset;
        let coff: i64 = self.carrier_offset;
        let mut i: usize = 0;
        while i < HBINS
            invariant
                i <= HBINS,
                sig@.len() == HBINS,
                car@.len() == HBINS,
                bins_bounded(sig@),
                bins_bounded(car@),
                mx as int == q_max_mag(car@),
                0 <= mx <= SAT_MAX,
                soff == self.signal_offset,
                coff == self.carrier_offset,
                -80 <= soff <= 80,
                -80 <= coff <= 80,
                out@.len() == i,
                bins_bounded(out@),
                forall|j: int|
                    0 <= j < i ==> (#[trigger] out@[j].0 as int, out@[j].1 as int) == voc_bin(
                        sig@,
                        car@,
                        j,
                        soff as int,
                        coff as int,
                    ),
            decreases HBINS - i,
        {
            let si: i64 = i as i64 + soff;
            let ci: i64 = i as i64 + coff;
            if si < 0 || si >= HBINS as i64 || ci < 0 || ci >= HBINS as i64 {
                out.push((0, 0));
            } else {
                let cb: (i64, i64) = car[ci as usize];
                let cn: (i64, i64) = if mx == 0 {
                    (0, 0)
                } else {
                    (fdiv(cb.0, mx), fdiv(cb.1, mx))
                };
                let fct: i64 = crate::fixed::fnorm(cn.0, cn.1);
                let sb: (i64, i64) = sig[si as usize];
                out.push((fmul(sb.0, fct), fmul(sb.1, fct)));
            }
            i = i + 1;
        }
        let first: (i64, i64) = out[0];
        out[0] = (first.0, 0);
        let last: (i64, i64) = out[HBINS - 1];
        out[HBINS - 1] = (last.0, 0);
        out
    }
}

impl Vocoder {
    /// Apply the inverse-transform normalization: divide every sample of an
    /// inverted window by the window length.
    pub fn normalize_window(&self, time: &mut Vec<i64>)
        requires
            old(time)@.len() == WINDOW,
            all_bounded(old(time)@),
        ensures
            final(time)@.len() == WINDOW,
            all_bounded(final(time)@),
            forall|j: int|
                0 <= j < WINDOW ==> #[trigger] final(time)@[j] as int == crate::fixed::q_divn(
                    old(time)@[j] as int,
                    WINDOW as int,
                ),
    {
        let mut i: usize = 0;
        while i < WINDOW
            invariant
                i <= WINDOW,
                time@.len() == WINDOW,
                all_bounded(time@),
                forall|j: int|
                    0 <= j < i ==> #[trigger] time@[j] as int == crate::fixed::q_divn(
                        old(time)@[j] as int,
                        WINDOW as int,
                    ),
                forall|j: int| i <= j < WINDOW ==> #[trigger] time@[j] == old(time)@[j],
            decreases WINDOW - i,
        {
            let x: i64 = time[i];
            time[i] = crate::fixed::fdivn(x, WINDOW as u64);
            i = i + 1;
        }
    }

    /// Set whether a sidechain input is connected.
    pub fn set_sidechain(&mut self, v: bool)
        requires
            old(self).wf(),
        ensures
            final(self).wf(),
            *final(self) == (Vocoder { sidechain_enabled: v, ..*old(self) }),
    {
        self.sidechain_enabled = v;
    }

    /// Set the carrier band shift.
    pub fn set_carrier_offset(&mut self, v: i64)
        requires
            old(self).wf(),
            -80 <= v <= 80,
        ensures
            final(self).wf(),
            *final(self) == (Vocoder { carrier_offset: v, ..*old(self) }),
    {
        self.carrier_offset = v;
    }

    /// Set the signal band shift.
    pub fn set_signal_offset(&mut self, v: i64)
        requires
            old(self).wf(),
            -80 <= v <= 80,
        ensures
            final(self).wf(),
            *final(self) == (Vocoder { signal_offset: v, ..*old(self) }),
    {
        self.signal_offset = v;
    }
}

/// Multiplying a bounded value by one (in fixed point) returns it exactly.
pub proof fn lemma_q_mul_one(x: int)
    requires
        -SAT_MAX <= x <= SAT_MAX,
    ensures
        q_mul(x, SCALE as int) == x,
{
    if x >= 0 {
        vstd::arithmetic::div_mod::lemma_div_by_multiple(x, SCALE as int);
        assert(x * (SCALE as int) >= 0) by (nonlinear_arith)
            requires x >= 0;
    } else {
        vstd::arithmetic::div_mod::lemma_div_by_multiple(-x, SCALE as int);
        assert((-x) * (SCALE as int) == -(x * (SCALE as int))) by (nonlinear_arith);
        assert(x * (SCALE as int) < 0) by (nonlinear_arith)
            requires x < 0;
    }
}

/// Pass-through identity: with both offsets zero and a carrier whose
/// normalized magnitude is flat at one, every interior output bin is the
/// signal's own complex value, unchanged.
pub proof fn lemma_flat_carrier_passthrough(
    sig: Seq<(i64, i64)>,
    car: Seq<(i64, i64)>,
    i: int,
)
    requires
        sig.len() == HBINS,
        car.len() == HBINS,
        bins_bounded(sig),
        0 <= i < HBINS,
        ({
            let mx = q_max_mag(car);
            let cn = voc_norm_carrier(car[i], mx);
            q_norm(cn.0, cn.1) == SCALE as int
        }),
    ensures
        voc_bin(sig, car, i, 0, 0) == (sig[i].0 as int, sig[i].1 as int),
{
    lemma_q_mul_one(sig[i].0 as int);
    lemma_q_mul_one(sig[i].1 as int);
}

} // verus!
