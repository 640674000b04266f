//! Spectral detune with persistent echo: each interior bin's magnitude is
//! smeared by an exponential walk across its neighbours, an accumulated
//! per-bin echo magnitude is added on top, and the bin is rescaled to the
//! new target magnitude. The echo store grows with each window's own
//! magnitude and decays geometrically, so it rings on after the input
//! stops.
//!
//! One processing call runs `feed`; when `is_ready` holds it also runs
//! `window`, the host's forward transform, `spectral_edit`, and the inverse
//! transform. `normalize_window` and `overlap.emit` run on every call, so
//! the previous window keeps playing out after the input stops.
use vstd::prelude::*;
use circular_buffer::CircularBuffer;
use crate::dsp::{DspType, Parameter, ParameterType, ProcessResult};
use crate::fixed::{
    all_bounded, bounded, fadd, fdiv, fdivn, flerp, fmul, fnorm, lemma_q_mul_zero, q_add, q_div,
    q_divn, q_lerp, q_mul, q_norm, SAT_MAX, SCALE,
};
use crate::noise_reduction::{persist_ok, HBINS};
use crate::pipeline::{all_zero, OverlapAdd};
use crate::ring::{
    copy_contiguous, ring_extend, ring_fill, ring_is_full, ring_new, ring_samples, WINDOW,
};
use crate::signal::{mono_of, SignalConst};
use crate::spectrum::bins_bounded;
use crate::cassette::min_i;

verus! {

/// Margin of edge bins left untouched by the detune edit.
pub const EDGE_BINS: usize = 8;

/// Echo magnitudes at or below this are treated as inaudible (one ten
/// thousandth of full scale, in Q16.16).
pub const ECHO_EPS_Q: i64 = 6;

/// The exponential neighbour walk in the forward direction: blend the
/// accumulator toward each neighbour magnitude from `j` up to `end`.
pub open spec fn walk_fwd(
    s: Seq<(i64, i64)>,
    i: int,
    w: int,
    f: int,
    acc: int,
    j: int,
    end: int,
) -> int
    decreases end - j + 1,
{
    if j > end {
        acc
    } else {
        walk_fwd(
            s,
            i,
            w,
            f,
            q_lerp(acc, q_norm(s[i + j - w].0 as int, s[i + j - w].1 as int), f),
            j + 1,
            end,
        )
    }
}

/// The exponential neighbour walk in the backward direction: blend the
/// accumulator toward each neighbour magnitude from `j` down to `start`.
pub open spec fn walk_bwd(
    s: Seq<(i64, i64)>,
    i: int,
    w: int,
    f: int,
    acc: int,
    j: int,
    start: int,
) -> int
    decreases j - start + 1,
{
    if j < start {
        acc
    } else {
        walk_bwd(
            s,
            i,
            w,
            f,
            q_lerp(acc, q_norm(s[i + j - w].0 as int, s[i + j - w].1 as int), f),
            j - 1,
            start,
        )
    }
}

/// The detuned target magnitude of bin `i` before the echo is added.
pub open spec fn detune_target(s: Seq<(i64, i64)>, i: int, w: int, f: int, bias: bool) -> int {
    let orig = q_norm(s[i].0 as int, s[i].1 as int);
    if w <= 0 {
        orig
    } else {
        let start = if w > i { w - i } else { 0 };
        let end = min_i(2 * w + 1, HBINS - 2 - i);
        if bias {
            walk_fwd(s, i, w, f, orig, start, end)
        } else {
            walk_bwd(s, i, w, f, orig, end, start)
        }
    }
}

/// The edited value of interior bin `i`: rescaled from its own magnitude to
/// the detuned target plus the stored echo; a silent bin is left alone to
/// avoid rescaling through zero.
pub open spec fn fantasy_bin(
    s: Seq<(i64, i64)>,
    p: int,
    i: int,
    w: int,
    f: int,
    bias: bool,
) -> (int, int) {
    let orig = q_norm(s[i].0 as int, s[i].1 as int);
    let target = q_add(detune_target(s, i, w, f, bias), p);
    if orig == 0 {
        (s[i].0 as int, s[i].1 as int)
    } else {
        let fct = q_div(target, orig);
        (q_mul(s[i].0 as int, fct), q_mul(s[i].1 as int, fct))
    }
}

/// The echo store of one bin after one window: grown by the window's own
/// magnitude scaled by the support, then decayed.
pub open spec fn echo_step(p: int, orig: int, es: int, ed: int) -> int {
    q_mul(q_add(p, q_mul(orig, es)), ed)
}

/// The echo store after `k` silent windows.
pub open spec fn echo_decayed(p: int, ed: int, k: nat) -> int
    decreases k,
{
    if k == 0 {
        p
    } else {
        echo_step(echo_decayed(p, ed, (k - 1) as nat), 0, 0, ed)
    }
}

/// A silent bin with no stored echo passes through silent, and its echo
/// store stays zero: driven by silence, the edit emits exactly silence once
/// the echo has died out.
pub proof fn lemma_fantasy_silent_bin(
    s: Seq<(i64, i64)>,
    i: int,
    w: int,
    f: int,
    bias: bool,
    es: int,
    ed: int,
)
    requires
        0 <= i < s.len(),
        s[i] == (0i64, 0i64),
    ensures
        fantasy_bin(s, 0, i, w, f, bias) == (0int, 0int),
        echo_step(0, q_norm(s[i].0 as int, s[i].1 as int), es, ed) == 0,
{
    assert(crate::fixed::is_sqrt_floor(0, 0));
    crate::fixed::lemma_sqrt_floor_is(0, 0);
    assert(q_norm(0, 0) == 0);
    lemma_q_mul_zero(es);
    lemma_q_mul_zero(ed);
}

/// A wholly silent window is a fixed point of the detune edit: with every
/// input bin zero and the echo store zero, every edited bin is zero and the
/// store stays zero, whatever the settings.
pub proof fn lemma_fantasy_silent_spectrum(
    s: Seq<(i64, i64)>,
    p: Seq<i64>,
    w: int,
    f: int,
    bias: bool,
    es: int,
    ed: int,
)
    requires
        s.len() == p.len(),
        crate::spectrum::bins_zero(s),
        all_zero(p),
    ensures
        forall|i: int|
            0 <= i < s.len() ==> #[trigger] fantasy_bin(s, p[i] as int, i, w, f, bias) == (
            0int, 0int),
        forall|i: int|
            0 <= i < s.len() ==> #[trigger] echo_step(
                p[i] as int,
                q_norm(s[i].0 as int, s[i].1 as int),
                es,
                ed,
            ) == 0,
{
    assert forall|i: int| 0 <= i < s.len() implies #[trigger] fantasy_bin(
        s,
        p[i] as int,
        i,
        w,
        f,
        bias,
    ) == (0int, 0int) by {
        lemma_fantasy_silent_bin(s, i, w, f, bias, es, ed);
    }
    assert forall|i: int| 0 <= i < s.len() implies #[trigger] echo_step(
        p[i] as int,
        q_norm(s[i].0 as int, s[i].1 as int),
        es,
        ed,
    ) == 0 by {
        lemma_fantasy_silent_bin(s, i, w, f, bias, es, ed);
    }
}

/// With the echo support at zero, a zero echo store stays exactly zero: the
/// effect injects no artificial energy.
pub proof fn lemma_no_support_no_echo(orig: int, ed: int)
    ensures
        echo_step(0, orig, 0, ed) == 0,
{
    lemma_q_mul_zero(orig);
    lemma_q_mul_zero(ed);
}

/// Over a silent window the echo store strictly shrinks until it reaches
/// zero: one decay step loses at least one quantum.
pub proof fn lemma_echo_decay_step(p: int, ed: int)
    requires
        0 <= p <= SAT_MAX,
        0 <= ed < SCALE,
    ensures
        0 <= echo_step(p, 0, 0, ed) <= if p > 0 { p - 1 } else { 0 },
{
    lemma_q_mul_zero(0);
    assert(q_add(p, q_mul(0, 0)) == p) by {
        lemma_q_mul_zero(0);
    }
    if p > 0 {
        assert(0 <= p * ed < p * (SCALE as int)) by (nonlinear_arith)
            requires 0 < p && 0 <= ed < SCALE as int;
        vstd::arithmetic::div_mod::lemma_multiply_divide_lt(p * ed, SCALE as int, p);
        vstd::arithmetic::div_mod::lemma_div_pos_is_pos(p * ed, SCALE as int);
    } else {
        assert(p * ed == 0) by (nonlinear_arith)
            requires p == 0;
    }
}

/// After `k` silent windows the echo store is at most `p - k` quanta (and
/// never negative): it falls below any audibility threshold within a
/// horizon set by its starting level.
pub proof fn lemma_echo_horizon(p: int, ed: int, k: nat)
    requires
        0 <= p <= SAT_MAX,
        0 <= ed < SCALE,
    ensures
        0 <= echo_decayed(p, ed, k) <= if p - k >= 0 { p - k } else { 0 },
    decreases k,
{
    if k == 0 {
    } else {
        lemma_echo_horizon(p, ed, (k - 1) as nat);
        lemma_echo_decay_step(echo_decayed(p, ed, (k - 1) as nat), ed);
    }
}

/// Granular spectral detune unit with a persistent echo store.
pub struct Fantasy {
    /// Ring of the most recent mono samples.
    pub delay: CircularBuffer<4096, i64>,
    /// Idle samples seen since the last active input.
    pub silence: usize,
    /// Per-bin accumulated echo magnitudes.
    pub persistent: Vec<i64>,
    /// Overlap-add residual.
    pub overlap: OverlapAdd,
    /// Half-width of the neighbour walk, in bins.
    pub detune_window: usize,
    /// Blend factor of the neighbour walk, Q16.16 in [0, 1].
    pub detune_factor_q: i64,
    /// Walk direction: forward when set.
    pub detune_bias: bool,
    /// Echo decay per window, Q16.16 in [0.5, 0.99].
    pub echo_decay_q: i64,
    /// Portion of each window's magnitude fed into the echo, Q16.16 in
    /// [0, 1].
    pub echo_support_q: i64,
}

impl Fantasy {
    /// Structural invariant: bounded history, a full-size non-negative echo
    /// store, and parameters inside their declared ranges.
    pub open spec fn wf(self) -> bool {
        &&& all_bounded(ring_samples(self.delay))
        &&& self.persistent@.len() == HBINS
        &&& persist_ok(self.persistent@)
        &&& self.overlap.wf()
        &&& self.detune_window <= 20
        &&& 0 <= self.detune_factor_q <= SCALE
        &&& SCALE / 2 <= self.echo_decay_q <= 99 * SCALE / 100
        &&& 0 <= self.echo_support_q <= SCALE
    }

    pub fn name() -> (r: &'static str)
        ensures
            r@ == "Fantasy"@,
    {
        "Fantasy"
    }

    pub fn version() -> (r: u32)
        ensures
            r == 1,
    {
        1
    }

    pub fn ty() -> (r: DspType)
        ensures
            r == DspType::Effect,
    {
        DspType::Effect
    }

    /// Static parameter metadata; ranges match the setters' preconditions
    /// and the defaults match `create`.
    pub fn parameters() -> (r: Vec<Parameter>)
        ensures
            r@.len() == 5,
            r@[0].name@ == "detune_factor"@ && r@[0].ty == (ParameterType::Float {
                min: 0,
                max: SCALE,
                default: (7 * SCALE / 10) as i64,
            }),
            r@[1].name@ == "detune_window"@ && r@[1].unit@ == " bands"@ && r@[1].ty == (
            ParameterType::Int { min: 0i64, max: 20i64, default: 8i64, max_is_inf: false }),
            r@[2].name@ == "detune_bias"@ && r@[2].ty == (ParameterType::Bool { default: true }),
            r@[3].name@ == "echo_decay"@ && r@[3].ty == (ParameterType::Float {
                min: (SCALE / 2) as i64,
                max: (99 * SCALE / 100) as i64,
                default: (95 * SCALE / 100) as i64,
            }),
            r@[4].name@ == "echo_support"@ && r@[4].ty == (ParameterType::Float {
                min: 0,
                max: SCALE,
                default: (SCALE / 10) as i64,
            }),
    {
        let mut v: Vec<Parameter> = Vec::new();
        v.push(
            Parameter::new(
                "detune_factor",
                ParameterType::Float { min: 0, max: SCALE, default: 7 * SCALE / 10 },
            ),
        );
        v.push(
            Parameter::with_unit(
                "detune_window",
                " bands",
                ParameterType::Int { min: 0, max: 20, default: 8, max_is_inf: false },
            ),
        );
        v.push(Parameter::new("detune_bias", ParameterType::Bool { default: true }));
        v.push(
            Parameter::new(
                "echo_decay",
                ParameterType::Float {
                    min: SCALE / 2,
                    max: 99 * SCALE / 100,
                    default: 95 * SCALE / 100,
                },
            ),
        );
        v.push(
            Parameter::new(
                "echo_support",
                ParameterType::Float { min: 0, max: SCALE, default: SCALE / 10 },
            ),
        );
        v
    }

    /// A unit with empty history, no echo, and default parameters.
    pub fn create() -> (r: Fantasy)
        ensures
            r.wf(),
            ring_samples(r.delay).len() == 0,
            all_zero(r.persistent@),
            all_zero(r.overlap.residual@),
            r.silence == 0,
            r.detune_window == 8,
            r.detune_factor_q == 7 * SCALE / 10,
            r.detune_bias,
            r.echo_decay_q == 95 * SCALE / 100,
            r.echo_support_q == SCALE / 10,
    {
        let mut persistent: Vec<i64> = Vec::new();
        let mut i: usize = 0;
        while i < HBINS
            invariant
                i <= HBINS,
                persistent@.len() == i,
                all_zero(persistent@),
                persist_ok(persistent@),
            decreases HBINS - i,
        {
            persistent.push(0);
            i = i + 1;
        }
        Fantasy {
            delay: ring_new(),
            silence: 0,
            persistent,
            overlap: OverlapAdd::new(),
            detune_window: 8,
            detune_factor_q: 7 * SCALE / 10,
            detune_bias: true,
            echo_decay_q: 95 * SCALE / 100,
            echo_support_q: SCALE / 10,
        }
    }

    /// Zero the history, the echo store, and the residual; the detune and
    /// echo parameters keep their values.
    pub fn reset(&mut self)
        requires
            old(self).wf(),
        ensures
            final(self).wf(),
            all_zero(ring_samples(final(self).delay)),
            ring_samples(final(self).delay).len() == WINDOW,
            all_zero(final(self).persistent@),
            all_zero(final(self).overlap.residual@),
            *final(self) == (Fantasy {
                delay: final(self).delay,
                persistent: final(self).persistent,
                overlap: final(self).overlap,
                silence: 0,
                ..*old(self)
            }),
    {
        ring_fill(&mut self.delay, 0);
        let mut zeros: Vec<i64> = Vec::new();
        let mut i: usize = 0;
        while i < HBINS
            invariant
                i <= HBINS,
                zeros@.len() == i,
                all_zero(zeros@),
                persist_ok(zeros@),
            decreases HBINS - i,
        {
            zeros.push(0);
            i = i + 1;
        }
        self.persistent = zeros;
        self.overlap.reset();
        self.silence = 0;
    }

    /// Keep processing while any echo is still audible: the accumulated
    /// ring-out must decay below the audibility threshold in every bin
    /// before a silent stream may be skipped.
    pub fn should_process(&mut self, idle: bool, incoming_length: usize) -> (r: ProcessResult)
        requires
            old(self).wf(),
        ensures
            final(self).wf(),
            !idle ==> final(self).silence == 0 && r == ProcessResult::Continue,
            idle && old(self).silence + incoming_length <= usize::MAX ==> final(self).silence
                == old(self).silence + incoming_length,
            idle && old(self).silence + incoming_length > usize::MAX ==> final(self).silence
                == usize::MAX,
            r == if final(self).silence >= WINDOW && (forall|j: int|
                0 <= j < HBINS ==> #[trigger] final(self).persistent@[j] <= ECHO_EPS_Q) {
                ProcessResult::SkipSilent
            } else {
                ProcessResult::Continue
            },
            *final(self) == (Fantasy { silence: final(self).silence, ..*old(self) }),
    {
        if idle {
            self.silence = self.silence.saturating_add(incoming_length);
            if self.silence >= WINDOW {
                let mut quiet: bool = true;
                let mut j: usize = 0;
                while j < HBINS
                    invariant
                        j <= HBINS,
                        self.persistent@.len() == HBINS,
                        quiet == (forall|k: int|
                            0 <= k < j ==> #[trigger] self.persistent@[k] <= ECHO_EPS_Q),
                    decreases HBINS - j,
                {
                    if self.persistent[j] > ECHO_EPS_Q {
                        quiet = false;
                    }
                    j = j + 1;
                }
                if quiet {
                    ProcessResult::SkipSilent
                } else {
                    ProcessResult::Continue
                }
            } else {
                ProcessResult::Continue
            }
        } else {
            self.silence = 0;
            ProcessResult::Continue
        }
    }

    /// Stream one block's mono downmix into the delay ring.
    pub fn feed(&mut self, input: &SignalConst)
        requires
            old(self).wf(),
            input.wf(),
        ensures
            final(self).wf(),
            ring_samples(final(self).delay).len() == min_i(
                ring_samples(old(self).delay).len() + input.spec_length(),
                WINDOW as int,
            ),
            ring_samples(final(self).delay) == crate::ring::stream_tail(
                ring_samples(old(self).delay) + mono_of(*input),
                WINDOW as int,
            ),
            *final(self) == (Fantasy { delay: final(self).delay, ..*old(self) }),
    {
        let mono: Vec<i64> = input.read_mono();
        proof {
            assert(mono@ =~= mono_of(*input));
        }
        ring_extend(&mut self.delay, mono.as_slice());
    }

    /// The delay ring holds a full window.
    pub fn is_ready(&self) -> (r: bool)
        ensures
            r == (ring_samples(self.delay).len() == WINDOW),
    {
        ring_is_full(&self.delay)
    }

    /// Linearize the delay ring into one flat window, oldest first.
    pub fn window(&self) -> (r: Vec<i64>)
        requires
            self.wf(),
            ring_samples(self.delay).len() == WINDOW,
        ensures
            r@ == ring_samples(self.delay),
            all_bounded(r@),
    {
        let mut w: Vec<i64> = Vec::new();
        let mut i: usize = 0;
        while i < WINDOW
            invariant
                i <= WINDOW,
                w@.len() == i,
            decreases WINDOW - i,
        {
            w.push(0);
            i = i + 1;
        }
        copy_contiguous(&self.delay, &mut w);
        w
    }

    /// Apply the inverse-transform normalization: divide every sample of an
    /// inverted window by the window length.
    pub fn normalize_window(&self, time: &mut Vec<i64>)
        requires
            old(time)@.len() == WINDOW,
            all_bounded(old(time)@),
        ensures
            final(time)@.len() == WINDOW,
            all_bounded(final(time)@),
            forall|j: int|
                0 <= j < WINDOW ==> #[trigger] final(time)@[j] as int == q_divn(
                    old(time)@[j] as int,
                    WINDOW as int,
                ),
    {
        let mut i: usize = 0;
        while i < WINDOW
            invariant
                i <= WINDOW,
                time@.len() == WINDOW,
                all_bounded(time@),
                forall|j: int|
                    0 <= j < i ==> #[trigger] time@[j] as int == q_divn(
                        old(time)@[j] as int,
                        WINDOW as int,
                    ),
                forall|j: int| i <= j < WINDOW ==> #[trigger] time@[j] == old(time)@[j],
            decreases WINDOW - i,
        {
            let x: i64 = time[i];
            time[i] = fdivn(x, WINDOW as u64);
            i = i + 1;
        }
    }
}

impl Fantasy {
    /// Set the blend factor of the neighbour walk.
    pub fn set_detune_factor(&mut self, v: i64)
        requires
            old(self).wf(),
            0 <= v <= SCALE,
        ensures
            final(self).wf(),
            *final(self) == (Fantasy { detune_factor_q: v, ..*old(self) }),
    {
        self.detune_factor_q = v;
    }

    /// Set the half-width of the neighbour walk.
    pub fn set_detune_window(&mut self, v: usize)
        requires
            old(self).wf(),
            v <= 20,
        ensures
            final(self).wf(),
            *final(self) == (Fantasy { detune_window: v, ..*old(self) }),
    {
        self.detune_window = v;
    }

    /// Set the walk direction.
    pub fn set_detune_bias(&mut self, v: bool)
        requires
            old(self).wf(),
        ensures
            final(self).wf(),
            *final(self) == (Fantasy { detune_bias: v, ..*old(self) }),
    {
        self.detune_bias = v;
    }

    /// Set the echo decay per window.
    pub fn set_echo_decay(&mut self, v: i64)
        requires
            old(self).wf(),
            SCALE / 2 <= v <= 99 * SCALE / 100,
        ensures
            final(self).wf(),
            *final(self) == (Fantasy { echo_decay_q: v, ..*old(self) }),
    {
        self.echo_decay_q = v;
    }

    /// Set the portion of each window's magnitude fed into the echo.
    pub fn set_echo_support(&mut self, v: i64)
        requires
            old(self).wf(),
            0 <= v <= SCALE,
        ensures
            final(self).wf(),
            *final(self) == (Fantasy { echo_support_q: v, ..*old(self) }),
    {
        self.echo_support_q = v;
    }
}

impl Fantasy {
    /// The spectral edit for one window: every interior bin is rescaled to
    /// its detuned target magnitude plus the stored echo, and the echo
    /// store is grown by this window's magnitude and decayed.
    pub fn spectral_edit(&mut self, spec_in: &Vec<(i64, i64)>) -> (out: Vec<(i64, i64)>)
        requires
            old(self).wf(),
            spec_in@.len() == HBINS,
            bins_bounded(spec_in@),
        ensures
            out@.len() == HBINS,
            bins_bounded(out@),
            forall|j: int|
                0 <= j < HBINS && !(EDGE_BINS <= j < HBINS - EDGE_BINS) ==> #[trigger] out@[j]
                    == spec_in@[j],
            forall|j: int|
                EDGE_BINS <= j < HBINS - EDGE_BINS ==> (#[trigger] out@[j].0 as int,
                out@[j].1 as int) == fantasy_bin(
                    spec_in@,
                    old(self).persistent@[j] as int,
                    j,
                    old(self).detune_window as int,
                    old(self).detune_factor_q as int,
                    old(self).detune_bias,
                ),
            final(self).persistent@.len() == HBINS,
            forall|j: int|
                EDGE_BINS <= j < HBINS - EDGE_BINS ==> #[trigger] (final(self).persistent@[
                    j
                ] as int) == echo_step(
                    old(self).persistent@[j] as int,
                    q_norm(spec_in@[j].0 as int, spec_in@[j].1 as int),
                    old(self).echo_support_q as int,
                    old(self).echo_decay_q as int,
                ),
            forall|j: int|
                0 <= j < HBINS && !(EDGE_BINS <= j < HBINS - EDGE_BINS) ==> #[trigger] final(
                    self
                ).persistent@[j] == old(self).persistent@[j],
            final(self).wf(),
            *final(self) == (Fantasy { persistent: final(self).persistent, ..*old(self) }),
    {
        let w: usize = self.detune_window;
        let f: i64 = self.detune_factor_q;
        let bias: bool = self.detune_bias;
        let es: i64 = self.echo_support_q;
        let ed: i64 = self.echo_decay_q;
        let mut out: Vec<(i64, i64)> = Vec::new();
        let mut i: usize = 0;
        while i < HBINS
            invariant
                i <= HBINS,
                spec_in@.len() == HBINS,
                bins_bounded(spec_in@),
                w == old(self).detune_window,
                f == old(self).detune_factor_q,
                bias == old(self).detune_bias,
                es == old(self).echo_support_q,
                ed == old(self).echo_decay_q,
                w <= 20,
                0 <= f <= SCALE,
                0 <= es <= SCALE,
                0 <= ed <= 99 * SCALE / 100,
                out@.len() == i,
                bins_bounded(out@),
                self.persistent@.len() == HBINS,
                persist_ok(self.persistent@),
                forall|j: int|
                    0 <= j < i && !(EDGE_BINS <= j < HBINS - EDGE_BINS) ==> #[trigger] out@[j]
                        == spec_in@[j],
                forall|j: int|
                    EDGE_BINS <= j < i && j < HBINS - EDGE_BINS ==> (#[trigger] out@[j].0 as int,
                    out@[j].1 as int) == fantasy_bin(
                        spec_in@,
                        old(self).persistent@[j] as int,
                        j,
                        w as int,
                        f as int,
                        bias,
                    ),
                forall|j: int|
                    EDGE_BINS <= j < i && j < HBINS - EDGE_BINS ==> #[trigger] self.persistent@[
                        j
                    ] as int == echo_step(
                        old(self).persistent@[j] as int,
                        q_norm(spec_in@[j].0 as int, spec_in@[j].1 as int),
                        es as int,
                        ed as int,
                    ),
                forall|j: int|
                    0 <= j < HBINS && !(EDGE_BINS <= j < i && j < HBINS - EDGE_BINS)
                        ==> #[trigger] self.persistent@[j] == old(self).persistent@[j],
                self.delay == old(self).delay,
                self.overlap == old(self).overlap,
                self.silence == old(self).silence,
                self.detune_window == old(self).detune_window,
                self.detune_factor_q == old(self).detune_factor_q,
                self.detune_bias == old(self).detune_bias,
                self.echo_decay_q == old(self).echo_decay_q,
                self.echo_support_q == old(self).echo_support_q,
                old(self).wf(),
            decreases HBINS - i,
        {
            if i < EDGE_BINS || i >= HBINS - EDGE_BINS {
                let b: (i64, i64) = spec_in[i];
                proof {
                    assert(bounded(b.0) && bounded(b.1));
                }
                out.push(b);
            } else {
                let b: (i64, i64) = spec_in[i];
                let orig: i64 = fnorm(b.0, b.1);
                let mut t: i64 = orig;
                if w > 0 {
                    let start: usize = if w > i {
                        w - i
                    } else {
                        0
                    };
                    let e1: usize = 2 * w + 1;
                    let e2: usize = HBINS - 2 - i;
                    let end: usize = if e1 < e2 {
                        e1
                    } else {
                        e2
                    };
                    if bias {
                        let mut j: usize = start;
                        while j <= end
                            invariant
                                spec_in@.len() == HBINS,
                                bins_bounded(spec_in@),
                                EDGE_BINS <= i < HBINS - EDGE_BINS,
                                0 < w <= 20,
                                0 <= f <= SCALE,
                                start == (if w > i { w - i } else { 0 }),
                                end == min_i(2 * w + 1, HBINS - 2 - i),
                                start <= j <= end + 1,
                                bounded(t),
                                walk_fwd(spec_in@, i as int, w as int, f as int, t as int, j as int,
                                    end as int) == walk_fwd(spec_in@, i as int, w as int, f as int,
                                    q_norm(spec_in@[i as int].0 as int, spec_in@[i as int].1 as int),
                                    start as int, end as int),
                            decreases end + 1 - j,
                        {
                            let nb: (i64, i64) = spec_in[i + j - w];
                            let nn: i64 = fnorm(nb.0, nb.1);
                            t = flerp(t, nn, f);
                            j = j + 1;
                        }
                    } else {
                        let mut j: usize = end + 1;
                        while j > start
                            invariant
                                spec_in@.len() == HBINS,
                                bins_bounded(spec_in@),
                                EDGE_BINS <= i < HBINS - EDGE_BINS,
                                0 < w <= 20,
                                0 <= f <= SCALE,
                                start == (if w > i { w - i } else { 0 }),
                                end == min_i(2 * w + 1, HBINS - 2 - i),
                                start <= j <= end + 1,
                                bounded(t),
                                walk_bwd(spec_in@, i as int, w as int, f as int, t as int,
                                    j as int - 1, start as int) == walk_bwd(spec_in@, i as int,
                                    w as int, f as int,
                                    q_norm(spec_in@[i as int].0 as int, spec_in@[i as int].1 as int),
                                    end as int, start as int),
                            decreases j,
                        {
                            let jj: usize = j - 1;
                            let nb: (i64, i64) = spec_in[i + jj - w];
                            let nn: i64 = fnorm(nb.0, nb.1);
                            t = flerp(t, nn, f);
                            j = j - 1;
                        }
                    }
                }
                let pold: i64 = self.persistent[i];
                let target: i64 = fadd(t, pold);
                if orig == 0 {
                    out.push(b);
                } else {
                    let fct: i64 = fdiv(target, orig);
                    out.push((fmul(b.0, fct), fmul(b.1, fct)));
                }
                let grow: i64 = fmul(orig, es);
                let summed: i64 = fadd(pold, grow);
                let pn: i64 = fmul(summed, ed);
                proof {
                    crate::fixed::lemma_q_mul_nonneg(orig as int, es as int);
                    crate::fixed::lemma_q_mul_nonneg(summed as int, ed as int);
                }
                self.persistent[i] = pn;
            }
            i = i + 1;
        }
        out
    }
}

} // verus!
