//! Local dynamics compression: every sample is replaced by the square root
//! of its magnitude with its sign kept, softly lifting quiet material.
use vstd::prelude::*;
use crate::dsp::DspType;
use crate::fixed::{
    all_bounded, bounded, isqrt_u128, lemma_sqrt_floor_is, sat_i, sqrt_floor, SAT_MAX, SCALE,
};
use crate::signal::{SignalConst, SignalMut};

verus! {

/// Signed square-root compression of one sample: the square root of the
/// magnitude (in fixed point) with the sample's sign.
pub open spec fn q_sqrt_signed(x: int) -> int {
    if x < 0 {
        -sat_i(sqrt_floor((-x) * (SCALE as int)))
    } else {
        sat_i(sqrt_floor(x * (SCALE as int)))
    }
}

/// Signed square-root compression of one bounded sample.
pub fn fsqrt_signed(x: i64) -> (r: i64)
    requires
        bounded(x),
    ensures
        r == q_sqrt_signed(x as int),
        bounded(r),
{
    let neg: bool = x < 0;
    let mx: u64 = if x < 0 { (-x) as u64 } else { x as u64 };
    let arg: u128 = (mx as u128) * 65536u128;
    let s: u64 = isqrt_u128(arg);
    proof {
        lemma_sqrt_floor_is(arg as int, s as int);
    }
    let mag: i64 = if s > SAT_MAX as u64 {
        SAT_MAX
    } else {
        s as i64
    };
    if neg && mag != 0 {
        -mag
    } else {
        mag
    }
}

/// Square-root dynamics compressor; it holds no state.
pub struct LocalDynamics {}

impl LocalDynamics {
    pub fn name() -> (r: &'static str)
        ensures
            r@ == "Local Dynamics"@,
    {
        "Local Dynamics"
    }

    pub fn version() -> (r: u32)
        ensures
            r == 1,
    {
        1
    }

    pub fn ty() -> (r: DspType)
        ensures
            r == DspType::Effect,
    {
        DspType::Effect
    }

    pub fn create() -> (r: LocalDynamics) {
        LocalDynamics {  }
    }

    pub fn reset(&mut self) {
    }

    /// Compress every interleaved sample of the input into the output.
    pub fn read(&mut self, input: &SignalConst, output: &mut SignalMut)
        requires
            input.wf(),
            old(output).wf(),
            old(output).view().len() == input.view().len(),
        ensures
            final(output).wf(),
            final(output).channels == old(output).channels,
            final(output).view().len() == old(output).view().len(),
            forall|k: int|
                0 <= k < final(output).view().len() ==> #[trigger] final(output).view()[
                    k
                ] as int == q_sqrt_signed(input.view()[k] as int),
    {
        let n: usize = output.data.len();
        let mut k: usize = 0;
        while k < n
            invariant
                input.wf(),
                n == output.data@.len(),
                output.data@.len() == old(output).data@.len(),
                output.data@.len() == input.view().len(),
                output.channels == old(output).channels,
                output.data@.len() as int % (output.channels as int) == 0,
                1 <= output.channels <= 2,
                k <= n,
                all_bounded(output.data@),
                forall|j: int|
                    0 <= j < k ==> #[trigger] output.data@[j] as int == q_sqrt_signed(
                        input.view()[j] as int,
                    ),
            decreases n - k,
        {
            let x: i64 = input.data[k];
            output.data[k] = fsqrt_signed(x);
            k = k + 1;
        }
    }
}

} // verus!
