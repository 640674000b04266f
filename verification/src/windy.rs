//! Wind-noise generators: a random walk clamped to full scale, smoothed by
//! repeated neighbour averaging, written identically to every channel.
use vstd::prelude::*;
use rand::RngExt;
use crate::dsp::DspType;
use crate::fixed::{all_bounded, bounded, q_avg2, favg2, SCALE};
use crate::signal::SignalMut;

verus! {

/// Magnitude bound (exclusive) of one random walk step (0.01 in Q16.16).
pub const DRIFT_BOUND_Q: i64 = 655;

/// Magnitude bound (exclusive) of one synth walk step (0.1 in Q16.16).
pub const SYNTH_DRIFT_BOUND_Q: i64 = 6554;

/// Relies on rand::RngExt::random_range over a half-open range: the result
/// lies within the range; nothing else is assumed of it.
#[verifier::external_body]
fn random_drift_raw(bound: i64) -> (r: i64)
    requires
        0 < bound,
    ensures
        -bound <= r < bound,
{
    rand::rng().random_range(-bound..bound)
}

/// One random-walk step: the previous level plus a drift, clamped to
/// [-1, 1].
pub open spec fn q_shift(x: int, drift: int) -> int {
    let s = x + drift;
    if s > SCALE {
        SCALE as int
    } else if s < -SCALE {
        -(SCALE as int)
    } else {
        s
    }
}

/// Clamped random-walk step from a bounded level; the drift magnitude must
/// stay below one.
pub fn shift_clamp(x: i64, drift: i64) -> (r: i64)
    requires
        -SCALE <= x <= SCALE,
        -SCALE <= drift <= SCALE,
    ensures
        r == q_shift(x as int, drift as int),
        -SCALE <= r <= SCALE,
{
    let s: i64 = x + drift;
    if s > SCALE {
        SCALE
    } else if s < -SCALE {
        -SCALE
    } else {
        s
    }
}

/// Whether every sample lies within full scale.
pub open spec fn all_in_unit(s: Seq<i64>) -> bool {
    forall|i: int| 0 <= i < s.len() ==> -SCALE <= #[trigger] s[i] <= SCALE
}

/// One smoothing pass: every sample becomes the average of itself and its
/// predecessor (the seed for the first).
pub fn lowpass_pass(buf: &mut Vec<i64>, seed: i64)
    requires
        all_in_unit(old(buf)@),
        -SCALE <= seed <= SCALE,
    ensures
        final(buf)@.len() == old(buf)@.len(),
        all_in_unit(final(buf)@),
        old(buf)@.len() > 0 ==> final(buf)@[0] == q_avg2(old(buf)@[0] as int, seed as int),
        forall|j: int|
            1 <= j < final(buf)@.len() ==> #[trigger] final(buf)@[j] as int == q_avg2(
                old(buf)@[j] as int,
                final(buf)@[j - 1] as int,
            ),
{
    let n: usize = buf.len();
    if n == 0 {
        return ;
    }
    let first: i64 = buf[0];
    let a0: i64 = favg2(first, seed);
    proof {
        lemma_avg2_unit(first as int, seed as int);
    }
    buf[0] = a0;
    let mut i: usize = 1;
    while i < n
        invariant
            1 <= i <= n,
            n == buf@.len(),
            buf@.len() == old(buf)@.len(),
            all_in_unit(buf@),
            buf@[0] == q_avg2(old(buf)@[0] as int, seed as int),
            forall|j: int|
                1 <= j < i ==> #[trigger] buf@[j] as int == q_avg2(
                    old(buf)@[j] as int,
                    buf@[j - 1] as int,
                ),
            forall|j: int| i <= j < n ==> #[trigger] buf@[j] == old(buf)@[j],
        decreases n - i,
    {
        let prev: i64 = buf[i - 1];
        let cur: i64 = buf[i];
        let v: i64 = favg2(cur, prev);
        proof {
            lemma_avg2_unit(cur as int, prev as int);
        }
        buf[i] = v;
        i = i + 1;
    }
}

/// Averaging two values within full scale stays within full scale.
pub proof fn lemma_avg2_unit(a: int, b: int)
    requires
        -SCALE <= a <= SCALE,
        -SCALE <= b <= SCALE,
    ensures
        -SCALE <= q_avg2(a, b) <= SCALE,
{
    let s: int = a + b;
    if s >= 0 {
        vstd::arithmetic::div_mod::lemma_div_pos_is_pos(s, 2);
        vstd::arithmetic::div_mod::lemma_div_is_ordered(s, 2 * (SCALE as int), 2);
        vstd::arithmetic::div_mod::lemma_div_multiples_vanish(SCALE as int, 2);
    } else {
        vstd::arithmetic::div_mod::lemma_div_pos_is_pos(-s, 2);
        vstd::arithmetic::div_mod::lemma_div_is_ordered(-s, 2 * (SCALE as int), 2);
        vstd::arithmetic::div_mod::lemma_div_multiples_vanish(SCALE as int, 2);
    }
}

/// Wind-noise generator with a persistent smoothing buffer.
pub struct WindySynth {
    /// Level carried between blocks: the last smoothed sample.
    pub tail: i64,
    /// Smoothing work buffer.
    pub buf: Vec<i64>,
}

/// Capacity of the wind generator's work buffer, in frames.
pub const WINDY_BUF: usize = 1024;

impl WindySynth {
    /// Structural invariant: the work buffer keeps its capacity and all
    /// levels stay within full scale.
    pub open spec fn wf(self) -> bool {
        &&& self.buf@.len() == WINDY_BUF
        &&& all_in_unit(self.buf@)
        &&& -SCALE <= self.tail <= SCALE
    }

    pub fn name() -> (r: &'static str)
        ensures
            r@ == "Scamble"@,
    {
        "Scamble"
    }

    pub fn version() -> (r: u32)
        ensures
            r == 1,
    {
        1
    }

    pub fn ty() -> (r: DspType)
        ensures
            r == DspType::Generator,
    {
        DspType::Generator
    }

    /// A generator at rest.
    pub fn create() -> (r: WindySynth)
        ensures
            r.wf(),
            r.tail == 0,
    {
        let mut buf: Vec<i64> = Vec::new();
        let mut i: usize = 0;
        while i < WINDY_BUF
            invariant
                i <= WINDY_BUF,
                buf@.len() == i,
                all_in_unit(buf@),
            decreases WINDY_BUF - i,
        {
            buf.push(0);
            i = i + 1;
        }
        WindySynth { tail: 0, buf }
    }

    /// Return the walk to silence; the work buffer keeps its contents.
    pub fn reset(&mut self)
        requires
            old(self).wf(),
        ensures
            final(self).wf(),
            final(self).tail == 0,
    {
        self.tail = 0;
    }

    pub fn preferred_out_channels(&self) -> (r: Option<usize>)
        ensures
            r == Some(2usize),
    {
        Some(2)
    }

    /// Generate one block: a clamped random walk from the carried level,
    /// smoothed by four averaging passes, broadcast to every channel. Every
    /// produced sample stays within full scale, whatever the walk drew.
    pub fn read(&mut self, output: &mut SignalMut)
        requires
            old(self).wf(),
            old(output).wf(),
            0 < old(output).spec_length() <= WINDY_BUF,
        ensures
            final(self).wf(),
            final(output).wf(),
            final(output).channels == old(output).channels,
            final(output).view().len() == old(output).view().len(),
            all_in_unit(final(output).view()),
            -SCALE <= final(self).tail <= SCALE,
    {
        let ulen: usize = output.length();
        let mut walk: Vec<i64> = Vec::new();
        let mut level: i64 = self.tail;
        let mut i: usize = 0;
        while i < ulen
            invariant
                i <= ulen,
                walk@.len() == i,
                all_in_unit(walk@),
                -SCALE <= level <= SCALE,
            decreases ulen - i,
        {
            let drift: i64 = random_drift_raw(DRIFT_BOUND_Q);
            level = shift_clamp(level, drift);
            walk.push(level);
            i = i + 1;
        }
        let mut pass: usize = 0;
        while pass < 4
            invariant
                pass <= 4,
                walk@.len() == ulen,
                all_in_unit(walk@),
                -SCALE <= self.tail <= SCALE,
                self.buf@.len() == WINDY_BUF,
                all_in_unit(self.buf@),
            decreases 4 - pass,
        {
            lowpass_pass(&mut walk, self.tail);
            pass = pass + 1;
        }
        let mut k: usize = 0;
        while k < ulen
            invariant
                k <= ulen,
                walk@.len() == ulen,
                all_in_unit(walk@),
                self.buf@.len() == WINDY_BUF,
                ulen <= WINDY_BUF,
                all_in_unit(self.buf@),
            decreases ulen - k,
        {
            self.buf[k] = walk[k];
            k = k + 1;
        }
        proof {
            assert forall|j: int| 0 <= j < walk@.len() implies crate::fixed::bounded(
                #[trigger] walk@[j],
            ) by {
                assert(-SCALE <= walk@[j] <= SCALE);
            }
        }
        output.write_frames(&walk);
        proof {
            let ci: int = old(output).channels as int;
            vstd::arithmetic::div_mod::lemma_fundamental_div_mod(
                old(output).view().len() as int,
                ci,
            );
            assert forall|k: int| 0 <= k < output.view().len() implies -SCALE
                <= #[trigger] output.view()[k] <= SCALE by {
                vstd::arithmetic::div_mod::lemma_div_pos_is_pos(k, ci);
                vstd::arithmetic::div_mod::lemma_multiply_divide_lt(
                    k,
                    ci,
                    old(output).spec_length(),
                );
                assert(-SCALE <= walk@[k / ci] <= SCALE);
            }
        }
        self.tail = self.buf[ulen - 1];
    }
}

/// Demonstration synth: the same clamped random walk with a coarser drift
/// and no persistent work buffer beyond the carried level.
pub struct DySynth {
    /// Level carried between blocks: the last smoothed sample.
    pub tail: i64,
}

impl DySynth {
    /// The carried level stays within full scale.
    pub open spec fn wf(self) -> bool {
        -SCALE <= self.tail <= SCALE
    }

    pub fn name() -> (r: &'static str)
        ensures
            r@ == "Scamble"@,
    {
        "Scamble"
    }

    pub fn version() -> (r: u32)
        ensures
            r == 1,
    {
        1
    }

    pub fn ty() -> (r: DspType)
        ensures
            r == DspType::Generator,
    {
        DspType::Generator
    }

    pub fn create() -> (r: DySynth)
        ensures
            r.wf(),
            r.tail == 0,
    {
        DySynth { tail: 0 }
    }

    pub fn reset(&mut self)
        ensures
            final(self).wf(),
            final(self).tail == 0,
    {
        self.tail = 0;
    }

    /// Generate one block: a clamped coarse random walk from the carried
    /// level, smoothed by four averaging passes, broadcast to every
    /// channel. Every produced sample stays within full scale.
    pub fn read(&mut self, output: &mut SignalMut)
        requires
            old(self).wf(),
            old(output).wf(),
            0 < old(output).spec_length(),
        ensures
            final(self).wf(),
            final(output).wf(),
            final(output).channels == old(output).channels,
            final(output).view().len() == old(output).view().len(),
            all_in_unit(final(output).view()),
    {
        let ulen: usize = output.length();
        let mut walk: Vec<i64> = Vec::new();
        let mut level: i64 = self.tail;
        let mut i: usize = 0;
        while i < ulen
            invariant
                i <= ulen,
                walk@.len() == i,
                all_in_unit(walk@),
                -SCALE <= level <= SCALE,
            decreases ulen - i,
        {
            let drift: i64 = random_drift_raw(SYNTH_DRIFT_BOUND_Q);
            level = shift_clamp(level, drift);
            walk.push(level);
            i = i + 1;
        }
        let mut pass: usize = 0;
        while pass < 4
            invariant
                pass <= 4,
                walk@.len() == ulen,
                all_in_unit(walk@),
                -SCALE <= self.tail <= SCALE,
            decreases 4 - pass,
        {
            lowpass_pass(&mut walk, self.tail);
            pass = pass + 1;
        }
        proof {
            assert forall|j: int| 0 <= j < walk@.len() implies crate::fixed::bounded(
                #[trigger] walk@[j],
            ) by {
                assert(-SCALE <= walk@[j] <= SCALE);
            }
        }
        output.write_frames(&walk);
        proof {
            let ci: int = old(output).channels as int;
            vstd::arithmetic::div_mod::lemma_fundamental_div_mod(
                old(output).view().len() as int,
                ci,
            );
            assert forall|k: int| 0 <= k < output.view().len() implies -SCALE
                <= #[trigger] output.view()[k] <= SCALE by {
                vstd::arithmetic::div_mod::lemma_div_pos_is_pos(k, ci);
                vstd::arithmetic::div_mod::lemma_multiply_divide_lt(
                    k,
                    ci,
                    old(output).spec_length(),
                );
                assert(-SCALE <= walk@[k / ci] <= SCALE);
            }
        }
        let last: i64 = walk[ulen - 1];
        self.tail = last;
    }
}

} // verus!
