//! Click simulation: each window's whole spectrum is scaled by one random
//! gain factor (inconsistent playback level) and the output block is read
//! from the inverted window at a small random temporal jitter (mechanical
//! timing instability).
//!
//! One processing call runs `feed`, and once `is_ready` holds: `windows`,
//! the host's forward transform, `draw_gain` and `spectral_edit`, the
//! inverse transform, `normalize_window`, then `draw_jitter` and
//! `emit_jittered`. The edit is verified for every value the draws can
//! produce.
use vstd::prelude::*;
use circular_buffer::CircularBuffer;
use rand::RngExt;
use crate::dsp::{track_silence, DspType, ProcessResult};
use crate::fixed::{all_bounded, bounded, fdiv, fmul, q_div, q_mul};
use crate::noise_reduction::{ADJ_Q, HBINS};
use crate::ring::{
    copy_contiguous, ring_clear, ring_extend, ring_is_full, ring_new, ring_samples, WINDOW,
};
use crate::signal::{left_of, right_of, SignalConst};
use crate::spectrum::bins_bounded;
use crate::cassette::min_i;

verus! {

/// Smallest gain the click gain draw can produce (0.7 in Q16.16).
pub const GAIN_LO_Q: i64 = 45875;

/// One past the largest gain the click gain draw can produce (1.3 in
/// Q16.16).
pub const GAIN_HI_Q: i64 = 85197;

/// Upper bound (exclusive) of the temporal jitter draw, in samples.
pub const JITTER_BOUND: usize = 24;

/// Relies on rand::RngExt::random_range over a half-open range: the result
/// lies within the range; nothing else is assumed of it.
#[verifier::external_body]
fn random_gain_raw() -> (r: i64)
    ensures
        GAIN_LO_Q <= r < GAIN_HI_Q,
{
    rand::rng().random_range(GAIN_LO_Q..GAIN_HI_Q)
}

/// Relies on rand::RngExt::random_range over a half-open range: the result
/// lies within the range; nothing else is assumed of it.
#[verifier::external_body]
fn random_jitter_raw() -> (r: usize)
    ensures
        r < JITTER_BOUND,
{
    rand::rng().random_range(0usize..JITTER_BOUND)
}

/// One scaled spectrum bin: the random gain, then the forward-half
/// normalization.
pub open spec fn click_bin(b: (i64, i64), adj: int) -> (int, int) {
    (q_div(q_mul(b.0 as int, adj), ADJ_Q as int), q_div(q_mul(b.1 as int, adj), ADJ_Q as int))
}

/// Tape-click simulation unit.
pub struct ClickSimulator2000 {
    /// Ring of the most recent left-channel samples.
    pub delay_left: CircularBuffer<4096, i64>,
    /// Ring of the most recent right-channel samples.
    pub delay_right: CircularBuffer<4096, i64>,
    /// Idle samples seen since the last active input.
    pub silence: usize,
}

impl ClickSimulator2000 {
    /// Structural invariant: bounded history.
    pub open spec fn wf(self) -> bool {
        &&& all_bounded(ring_samples(self.delay_left))
        &&& all_bounded(ring_samples(self.delay_right))
    }

    pub fn name() -> (r: &'static str)
        ensures
            r@ == "Click Sim"@,
    {
        "Click Sim"
    }

    pub fn version() -> (r: u32)
        ensures
            r == 1,
    {
        1
    }

    pub fn ty() -> (r: DspType)
        ensures
            r == DspType::Effect,
    {
        DspType::Effect
    }

    /// A unit with empty history.
    pub fn create() -> (r: ClickSimulator2000)
        ensures
            r.wf(),
            ring_samples(r.delay_left).len() == 0,
            ring_samples(r.delay_right).len() == 0,
            r.silence == 0,
    {
        ClickSimulator2000 {
            delay_left: ring_new(),
            delay_right: ring_new(),
            silence: 0,
        }
    }

    /// Empty both rings; the unit starts buffering afresh.
    pub fn reset(&mut self)
        requires
            old(self).wf(),
        ensures
            final(self).wf(),
            ring_samples(final(self).delay_left).len() == 0,
            ring_samples(final(self).delay_right).len() == 0,
            final(self).silence == 0,
    {
        ring_clear(&mut self.delay_left);
        ring_clear(&mut self.delay_right);
        self.silence = 0;
    }

    /// Skip processing only after a full window of uninterrupted silence.
    pub fn should_process(&mut self, idle: bool, incoming_length: usize) -> (r: ProcessResult)
        requires
            old(self).wf(),
        ensures
            final(self).wf(),
            !idle ==> final(self).silence == 0 && r == ProcessResult::Continue,
            idle && old(self).silence + incoming_length <= usize::MAX ==> final(self).silence
                == old(self).silence + incoming_length,
            idle && old(self).silence + incoming_length > usize::MAX ==> final(self).silence
                == usize::MAX,
            r == if final(self).silence >= WINDOW {
                ProcessResult::SkipSilent
            } else {
                ProcessResult::Continue
            },
            *final(self) == (ClickSimulator2000 { silence: final(self).silence, ..*old(self) }),
    {
        let (s, full): (usize, bool) = track_silence(self.silence, idle, incoming_length, WINDOW);
        self.silence = s;
        if full {
            ProcessResult::SkipSilent
        } else {
            ProcessResult::Continue
        }
    }

    pub fn preferred_out_channels(&self) -> (r: Option<usize>)
        ensures
            r == Some(2usize),
    {
        Some(2)
    }

    /// Stream one block into the two delay rings.
    pub fn feed(&mut self, input: &SignalConst)
        requires
            old(self).wf(),
            input.wf(),
        ensures
            final(self).wf(),
            ring_samples(final(self).delay_left).len() == min_i(
                ring_samples(old(self).delay_left).len() + input.spec_length(),
                WINDOW as int,
            ),
            ring_samples(final(self).delay_right).len() == min_i(
                ring_samples(old(self).delay_right).len() + input.spec_length(),
                WINDOW as int,
            ),
            ring_samples(final(self).delay_left) == crate::ring::stream_tail(
                ring_samples(old(self).delay_left) + left_of(*input),
                WINDOW as int,
            ),
            ring_samples(final(self).delay_right) == crate::ring::stream_tail(
                ring_samples(old(self).delay_right) + right_of(*input),
                WINDOW as int,
            ),
            *final(self) == (ClickSimulator2000 {
                delay_left: final(self).delay_left,
                delay_right: final(self).delay_right,
                ..*old(self)
            }),
    {
        let (l, r): (Vec<i64>, Vec<i64>) = input.read_stereo();
        proof {
            assert(l@ =~= left_of(*input));
            assert(r@ =~= right_of(*input));
        }
        ring_extend(&mut self.delay_left, l.as_slice());
        ring_extend(&mut self.delay_right, r.as_slice());
    }

    /// Both delay rings hold a full window.
    pub fn is_ready(&self) -> (r: bool)
        ensures
            r == (ring_samples(self.delay_left).len() == WINDOW && ring_samples(
                self.delay_right,
            ).len() == WINDOW),
    {
        let a: bool = ring_is_full(&self.delay_left);
        let b: bool = ring_is_full(&self.delay_right);
        a && b
    }

    /// Linearize both delay rings into flat windows, oldest first.
    pub fn windows(&self) -> (r: (Vec<i64>, Vec<i64>))
        requires
            self.wf(),
            ring_samples(self.delay_left).len() == WINDOW,
            ring_samples(self.delay_right).len() == WINDOW,
        ensures
            r.0@ == ring_samples(self.delay_left),
            r.1@ == ring_samples(self.delay_right),
            all_bounded(r.0@),
            all_bounded(r.1@),
    {
        let mut l: Vec<i64> = Vec::new();
        let mut r: Vec<i64> = Vec::new();
        let mut i: usize = 0;
        while i < WINDOW
            invariant
                i <= WINDOW,
                l@.len() == i,
                r@.len() == i,
            decreases WINDOW - i,
        {
            l.push(0);
            r.push(0);
            i = i + 1;
        }
        copy_contiguous(&self.delay_left, &mut l);
        copy_contiguous(&self.delay_right, &mut r);
        (l, r)
    }

    /// Draw this window's random gain factor. Every draw lies in the
    /// declared gain range; two draws need not agree.
    pub fn draw_gain(&self) -> (r: i64)
        ensures
            GAIN_LO_Q <= r < GAIN_HI_Q,
    {
        random_gain_raw()
    }

    /// Draw this block's random temporal jitter.
    pub fn draw_jitter(&self) -> (r: usize)
        ensures
            r < JITTER_BOUND,
    {
        random_jitter_raw()
    }

    /// Scale the whole spectrum by one gain factor and apply the
    /// forward-half normalization, pinning the two Hermitian edge bins to
    /// real values. Verified for every gain value the draw can produce.
    pub fn spectral_edit(&self, spec_in: &Vec<(i64, i64)>, adj: i64) -> (out: Vec<(i64, i64)>)
        requires
            spec_in@.len() == HBINS,
            bins_bounded(spec_in@),
            bounded(adj),
        ensures
            out@.len() == HBINS,
            bins_bounded(out@),
            forall|j: int|
                0 < j < HBINS - 1 ==> (#[trigger] out@[j].0 as int, out@[j].1 as int) == click_bin(
                    spec_in@[j],
                    adj as int,
                ),
            out@[0].0 as int == click_bin(spec_in@[0], adj as int).0 && out@[0].1 == 0i64,
            out@[HBINS - 1].0 as int == click_bin(spec_in@[HBINS - 1], adj as int).0 && out@[
                HBINS - 1
            ].1 == 0i64,
    {
        let mut out: Vec<(i64, i64)> = Vec::new();
        let mut i: usize = 0;
        while i < HBINS
            invariant
                i <= HBINS,
                spec_in@.len() == HBINS,
                bins_bounded(spec_in@),
                bounded(adj),
                out@.len() == i,
                bins_bounded(out@),
                forall|j: int|
                    0 <= j < i ==> (#[trigger] out@[j].0 as int, out@[j].1 as int) == click_bin(
                        spec_in@[j],
                        adj as int,
                    ),
            decreases HBINS - i,
        {
            let b: (i64, i64) = spec_in[i];
            let s0: i64 = fdiv(fmul(b.0, adj), ADJ_Q);
            let s1: i64 = fdiv(fmul(b.1, adj), ADJ_Q);
            out.push((s0, s1));
            i = i + 1;
        }
        let first: (i64, i64) = out[0];
        out[0] = (first.0, 0);
        let last: (i64, i64) = out[HBINS - 1];
        out[HBINS - 1] = (last.0, 0);
        out
    }

    /// Apply the remaining half of the transform normalization to an
    /// inverted window.
    pub fn normalize_window(&self, time: &mut Vec<i64>)
        requires
            old(time)@.len() == WINDOW,
            all_bounded(old(time)@),
        ensures
            final(time)@.len() == WINDOW,
            all_bounded(final(time)@),
            forall|j: int|
                0 <= j < WINDOW ==> #[trigger] final(time)@[j] as int == q_div(
                    old(time)@[j] as int,
                    ADJ_Q as int,
                ),
    {
        let mut i: usize = 0;
        while i < WINDOW
            invariant
                i <= WINDOW,
                time@.len() == WINDOW,
                all_bounded(time@),
                forall|j: int|
                    0 <= j < i ==> #[trigger] time@[j] as int == q_div(
                        old(time)@[j] as int,
                        ADJ_Q as int,
                    ),
                forall|j: int| i <= j < WINDOW ==> #[trigger] time@[j] == old(time)@[j],
            decreases WINDOW - i,
        {
            let x: i64 = time[i];
            time[i] = fdiv(x, ADJ_Q);
            i = i + 1;
        }
    }

    /// Read one output block from the inverted window at a temporal jitter:
    /// the block that ends `jitter` samples before the window's end.
    pub fn emit_jittered(&self, inverted: &Vec<i64>, out_len: usize, jitter: usize) -> (out: Vec<
        i64,
    >)
        requires
            inverted@.len() == WINDOW,
            all_bounded(inverted@),
            jitter < JITTER_BOUND,
            0 < out_len,
            out_len + jitter <= WINDOW,
        ensures
            out@.len() == out_len,
            all_bounded(out@),
            forall|j: int|
                0 <= j < out_len ==> #[trigger] out@[j] == inverted@[
                    WINDOW - out_len - jitter + j
                ],
    {
        let base: usize = WINDOW - out_len - jitter;
        let mut out: Vec<i64> = Vec::new();
        let mut i: usize = 0;
        while i < out_len
            invariant
                i <= out_len,
                inverted@.len() == WINDOW,
                all_bounded(inverted@),
                base == WINDOW - out_len - jitter,
                base + out_len <= WINDOW,
                out@.len() == i,
                all_bounded(out@),
                forall|j: int| 0 <= j < i ==> #[trigger] out@[j] == inverted@[base + j],
            decreases out_len - i,
        {
            out.push(inverted[base + i]);
            i = i + 1;
        }
        out
    }
}

} // verus!
