//! Overlap-add reconstruction: the tail of each freshly inverted window is
//! crossfaded against the tail remembered from the previous window, so that
//! consecutive hops join without a discontinuity.
use vstd::prelude::*;
use crate::fixed::{all_bounded, finterp, q_interp};
use crate::ring::WINDOW;

verus! {

/// Largest output block one call may emit: half a window.
pub const HOP_MAX: usize = 2048;

/// Every entry of a sample sequence is zero.
pub open spec fn all_zero(s: Seq<i64>) -> bool {
    forall|i: int| 0 <= i < s.len() ==> #[trigger] s[i] == 0i64
}

/// The residual store for one effect: the trailing samples of the previous
/// inverted window, consumed by the next call's crossfade.
pub struct OverlapAdd {
    pub residual: Vec<i64>,
}

impl OverlapAdd {
    /// The residual always spans half a window of bounded samples.
    pub open spec fn wf(self) -> bool {
        &&& self.residual@.len() == HOP_MAX
        &&& all_bounded(self.residual@)
    }

    /// A fresh, silent residual.
    pub fn new() -> (r: Self)
        ensures
            r.wf(),
            all_zero(r.residual@),
    {
        let mut v: Vec<i64> = Vec::new();
        let mut i: usize = 0;
        while i < HOP_MAX
            invariant
                i <= HOP_MAX,
                v@.len() == i,
                all_zero(v@),
                all_bounded(v@),
            decreases HOP_MAX - i,
        {
            v.push(0);
            i = i + 1;
        }
        OverlapAdd { residual: v }
    }

    /// Forget the remembered tail: the next emitted block fades in from
    /// silence.
    pub fn reset(&mut self)
        requires
            old(self).wf(),
        ensures
            final(self).wf(),
            all_zero(final(self).residual@),
    {
        let n: usize = self.residual.len();
        let mut i: usize = 0;
        while i < n
            invariant
                n == self.residual@.len(),
                self.residual@.len() == old(self).residual@.len(),
                i <= n,
                all_bounded(self.residual@),
                forall|j: int| 0 <= j < i ==> #[trigger] self.residual@[j] == 0i64,
            decreases n - i,
        {
            self.residual[i] = 0;
            i = i + 1;
        }
    }

    /// Emit one output block from a freshly inverted window.
    ///
    /// The block before the window's trailing block is taken as the new
    /// segment and crossfaded sample-by-sample against the residual saved by
    /// the previous call; the window's trailing block becomes the next
    /// residual.
    pub fn emit(&mut self, inverted: &Vec<i64>, out_len: usize) -> (out: Vec<i64>)
        requires
            old(self).wf(),
            inverted@.len() == WINDOW,
            all_bounded(inverted@),
            2 <= out_len <= HOP_MAX,
        ensures
            out@.len() == out_len,
            all_bounded(out@),
            forall|i: int|
                0 <= i < out_len ==> out@[i] == q_interp(
                    old(self).residual@[i] as int,
                    inverted@[WINDOW - 2 * out_len + i] as int,
                    i,
                    out_len as int,
                ),
            final(self).wf(),
            forall|i: int|
                0 <= i < out_len ==> final(self).residual@[i] == inverted@[WINDOW - out_len + i],
            forall|i: int|
                out_len <= i < HOP_MAX ==> final(self).residual@[i] == old(self).residual@[i],
    {
        let mut out: Vec<i64> = Vec::new();
        let base: usize = WINDOW - 2 * out_len;
        let mut i: usize = 0;
        while i < out_len
            invariant
                self == old(self),
                self.wf(),
                inverted@.len() == WINDOW,
                all_bounded(inverted@),
                2 <= out_len <= HOP_MAX,
                base == WINDOW - 2 * out_len,
                i <= out_len,
                out@.len() == i,
                all_bounded(out@),
                forall|j: int|
                    0 <= j < i ==> out@[j] == q_interp(
                        self.residual@[j] as int,
                        inverted@[WINDOW - 2 * out_len + j] as int,
                        j,
                        out_len as int,
                    ),
            decreases out_len - i,
        {
            let old_v: i64 = self.residual[i];
            let new_v: i64 = inverted[base + i];
            out.push(finterp(old_v, new_v, i, out_len));
            i = i + 1;
        }
        let tail: usize = WINDOW - out_len;
        let mut k: usize = 0;
        while k < out_len
            invariant
                self.wf(),
                self.residual@.len() == HOP_MAX,
                inverted@.len() == WINDOW,
                all_bounded(inverted@),
                2 <= out_len <= HOP_MAX,
                tail == WINDOW - out_len,
                k <= out_len,
                forall|j: int|
                    0 <= j < k ==> #[trigger] self.residual@[j] == inverted@[WINDOW - out_len + j],
                forall|j: int|
                    k <= j < HOP_MAX ==> #[trigger] self.residual@[j] == old(self).residual@[j],
            decreases out_len - k,
        {
            let v: i64 = inverted[tail + k];
            self.residual[k] = v;
            k = k + 1;
        }
        out
    }
}

/// Crossfading two silent segments yields silence: the overlap-add step
/// introduces no energy of its own.
pub proof fn lemma_crossfade_silence(i: int, l: int)
    requires
        0 <= i < l,
        2 <= l,
    ensures
        q_interp(0, 0, i, l) == 0,
{
    assert((l - 1 - i) * 0 + i * 0 == 0);
}

} // verus!
