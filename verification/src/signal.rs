//! Channel-count-aware views over interleaved sample buffers.
//!
//! A signal holds `length()` frames of `channels()` samples each. The engine
//! works on mono or stereo material only; wider layouts are downmixed by the
//! host adapter before they reach the library.
use vstd::prelude::*;
use crate::fixed::{all_bounded, bounded, favg2, q_avg2};

verus! {

/// A read-only interleaved sample buffer with a channel count.
pub struct SignalConst<'a> {
    pub data: &'a [i64],
    pub channels: usize,
}

/// A writable interleaved sample buffer with a channel count.
pub struct SignalMut {
    pub data: Vec<i64>,
    pub channels: usize,
}

impl<'a> SignalConst<'a> {
    /// The structural invariant: whole frames only, bounded samples, and at
    /// most stereo.
    pub open spec fn wf(self) -> bool {
        &&& 1 <= self.channels <= 2
        &&& self.data@.len() as int % (self.channels as int) == 0
        &&& all_bounded(self.data@)
    }

    /// The underlying interleaved samples.
    pub open spec fn view(self) -> Seq<i64> {
        self.data@
    }

    /// Number of whole frames.
    pub open spec fn spec_length(self) -> int {
        self.data@.len() as int / self.channels as int
    }

    /// The mono downmix of frame `i`: the average of its channels.
    pub open spec fn mono_at(self, i: int) -> int {
        if self.channels == 1 {
            self.data@[i] as int
        } else {
            q_avg2(self.data@[2 * i] as int, self.data@[2 * i + 1] as int)
        }
    }

    /// Construct a view from interleaved samples and a channel count; the
    /// sample count must be a whole number of frames.
    pub fn new(data: &'a [i64], channels: usize) -> (r: SignalConst<'a>)
        requires
            1 <= channels <= 2,
            data@.len() as int % (channels as int) == 0,
            all_bounded(data@),
        ensures
            r.wf(),
            r.view() == data@,
            r.channels == channels,
    {
        SignalConst { data, channels }
    }

    /// The channel count.
    pub fn channels(&self) -> (r: usize)
        ensures
            r == self.channels,
    {
        self.channels
    }

    /// Number of whole frames held.
    pub fn length(&self) -> (r: usize)
        requires
            self.wf(),
        ensures
            r == self.spec_length(),
    {
        self.data.len() / self.channels
    }

    /// Downmix the buffer to one mono stream, averaging stereo frames.
    pub fn read_mono(&self) -> (r: Vec<i64>)
        requires
            self.wf(),
        ensures
            r@.len() == self.spec_length(),
            forall|i: int| 0 <= i < r@.len() ==> r@[i] == self.mono_at(i),
            all_bounded(r@),
    {
        let frames: usize = self.length();
        let total: usize = self.data.len();
        proof {
            vstd::arithmetic::div_mod::lemma_fundamental_div_mod(
                self.data@.len() as int,
                self.channels as int,
            );
        }
        let mut out: Vec<i64> = Vec::new();
        let mut i: usize = 0;
        while i < frames
            invariant
                self.wf(),
                frames == self.spec_length(),
                i <= frames,
                self.channels as int * frames == self.data@.len(),
                self.data@.len() <= usize::MAX,
                out@.len() == i,
                forall|j: int| 0 <= j < i ==> out@[j] == self.mono_at(j),
                all_bounded(out@),
            decreases frames - i,
        {
            proof {
                if self.channels != 1 {
                    assert(2 * (i as int) + 2 <= self.data@.len() as int) by (nonlinear_arith)
                        requires
                            (i as int) < frames as int,
                            (self.channels as int) * (frames as int) == self.data@.len() as int,
                            self.channels as int == 2,
                    ;
                }
            }
            if self.channels == 1 {
                out.push(self.data[i]);
            } else {
                let l: i64 = self.data[2 * i];
                let rch: i64 = self.data[2 * i + 1];
                out.push(favg2(l, rch));
            }
            i = i + 1;
        }
        out
    }

    /// Split the buffer into left and right streams; a mono buffer feeds
    /// both sides.
    pub fn read_stereo(&self) -> (r: (Vec<i64>, Vec<i64>))
        requires
            self.wf(),
        ensures
            r.0@.len() == self.spec_length(),
            r.1@.len() == self.spec_length(),
            forall|i: int|
                0 <= i < r.0@.len() ==> r.0@[i] == self.data@[i * self.channels as int],
            forall|i: int|
                0 <= i < r.1@.len() ==> r.1@[i] == self.data@[
                    i * self.channels as int + (self.channels as int - 1)
                ],
            all_bounded(r.0@),
            all_bounded(r.1@),
    {
        let frames: usize = self.length();
        let ch: usize = self.channels;
        let total: usize = self.data.len();
        proof {
            vstd::arithmetic::div_mod::lemma_fundamental_div_mod(
                self.data@.len() as int,
                ch as int,
            );
        }
        let mut left: Vec<i64> = Vec::new();
        let mut right: Vec<i64> = Vec::new();
        let mut i: usize = 0;
        while i < frames
            invariant
                self.wf(),
                ch == self.channels,
                frames == self.spec_length(),
                i <= frames,
                ch as int * frames == self.data@.len(),
                self.data@.len() <= usize::MAX,
                left@.len() == i,
                right@.len() == i,
                forall|j: int| 0 <= j < i ==> left@[j] == self.data@[j * ch as int],
                forall|j: int|
                    0 <= j < i ==> right@[j] == self.data@[j * ch as int + (ch as int - 1)],
                all_bounded(left@),
                all_bounded(right@),
            decreases frames - i,
        {
            proof {
                assert((i as int) * (ch as int) + (ch as int) <= self.data@.len() as int)
                    by (nonlinear_arith)
                    requires
                        (i as int) < frames as int,
                        (ch as int) * (frames as int) == self.data@.len() as int,
                        1 <= ch as int,
                ;
            }
            left.push(self.data[i * ch]);
            right.push(self.data[i * ch + (ch - 1)]);
            i = i + 1;
        }
        (left, right)
    }
}

impl SignalMut {
    /// The structural invariant: whole frames only, bounded samples, and at
    /// most stereo.
    pub open spec fn wf(self) -> bool {
        &&& 1 <= self.channels <= 2
        &&& self.data@.len() as int % (self.channels as int) == 0
        &&& all_bounded(self.data@)
    }

    /// The underlying interleaved samples.
    pub open spec fn view(self) -> Seq<i64> {
        self.data@
    }

    /// Number of whole frames.
    pub open spec fn spec_length(self) -> int {
        self.data@.len() as int / self.channels as int
    }

    /// Construct a writable buffer from interleaved samples and a channel
    /// count; the sample count must be a whole number of frames.
    pub fn new(data: Vec<i64>, channels: usize) -> (r: SignalMut)
        requires
            1 <= channels <= 2,
            data@.len() as int % (channels as int) == 0,
            all_bounded(data@),
        ensures
            r.wf(),
            r.view() == data@,
            r.channels == channels,
    {
        SignalMut { data, channels }
    }

    /// The channel count.
    pub fn channels(&self) -> (r: usize)
        ensures
            r == self.channels,
    {
        self.channels
    }

    /// Number of whole frames held.
    pub fn length(&self) -> (r: usize)
        requires
            self.wf(),
        ensures
            r == self.spec_length(),
    {
        self.data.len() / self.channels
    }

    /// Write one value to every channel of frame `n`.
    pub fn write_sample(&mut self, n: usize, v: i64)
        requires
            old(self).wf(),
            n < old(self).spec_length(),
            bounded(v),
        ensures
            final(self).wf(),
            final(self).channels == old(self).channels,
            final(self).view().len() == old(self).view().len(),
            forall|c: int|
                0 <= c < final(self).channels ==> #[trigger] final(self).view()[
                    n * old(self).channels as int + c
                ] == v,
            forall|k: int|
                0 <= k < final(self).view().len() && !(n * old(self).channels as int <= k < (n + 1)
                    * old(self).channels as int) ==> final(self).view()[k] == old(self).view()[k],
    {
        let ch: usize = self.channels;
        let total: usize = self.data.len();
        proof {
            assert(self.data@.len() <= usize::MAX);
            vstd::arithmetic::div_mod::lemma_fundamental_div_mod(
                self.data@.len() as int,
                ch as int,
            );
            let ghost lf: int = self.spec_length();
            assert(self.data@.len() as int == (ch as int) * lf);
            assert((n as int) * (ch as int) + ch as int <= self.data@.len() as int)
                by (nonlinear_arith)
                requires
                    (n as int) < lf,
                    self.data@.len() as int == (ch as int) * lf,
                    1 <= ch as int,
            ;
        }
        let mut c: usize = 0;
        while c < ch
            invariant
                1 <= ch <= 2,
                ch == self.channels,
                (n as int) * (ch as int) + ch as int <= self.data@.len(),
                self.data@.len() <= usize::MAX,
                self.data@.len() == old(self).data@.len(),
                self.data@.len() as int % (ch as int) == 0,
                c <= ch,
                bounded(v),
                all_bounded(self.data@),
                forall|j: int| 0 <= j < c ==> #[trigger] self.data@[n * ch as int + j] == v,
                forall|k: int|
                    0 <= k < self.data@.len() && !(n * ch as int <= k < n * ch as int + c)
                        ==> self.data@[k] == old(self).data@[k],
            decreases ch - c,
        {
            self.data[n * ch + c] = v;
            c = c + 1;
        }
        proof {
            assert(((n as int) + 1) * (ch as int) == (n as int) * (ch as int) + (ch as int))
                by (nonlinear_arith);
        }
    }

    /// Fill every sample with one value.
    pub fn fill(&mut self, v: i64)
        requires
            old(self).wf(),
            bounded(v),
        ensures
            final(self).wf(),
            final(self).channels == old(self).channels,
            final(self).view().len() == old(self).view().len(),
            forall|k: int| 0 <= k < final(self).view().len() ==> final(self).view()[k] == v,
    {
        let n: usize = self.data.len();
        let mut i: usize = 0;
        while i < n
            invariant
                n == self.data@.len(),
                self.data@.len() == old(self).data@.len(),
                self.data@.len() as int % (self.channels as int) == 0,
                self.channels == old(self).channels,
                i <= n,
                bounded(v),
                all_bounded(self.data@),
                forall|k: int| 0 <= k < i ==> self.data@[k] == v,
            decreases n - i,
        {
            self.data[i] = v;
            i = i + 1;
        }
    }

    /// Broadcast a mono block across every channel, frame by frame.
    pub fn write_frames(&mut self, mono: &Vec<i64>)
        requires
            old(self).wf(),
            mono@.len() == old(self).spec_length(),
            all_bounded(mono@),
        ensures
            final(self).wf(),
            final(self).channels == old(self).channels,
            final(self).view().len() == old(self).view().len(),
            forall|k: int|
                0 <= k < final(self).view().len() ==> final(self).view()[k] == mono@[
                    k / (old(self).channels as int)
                ],
    {
        let frames: usize = self.length();
        let ch: usize = self.channels;
        let total: usize = self.data.len();
        proof {
            vstd::arithmetic::div_mod::lemma_fundamental_div_mod(
                self.data@.len() as int,
                ch as int,
            );
        }
        let mut i: usize = 0;
        while i < frames
            invariant
                self.wf(),
                ch == self.channels,
                self.channels == old(self).channels,
                self.data@.len() == old(self).data@.len(),
                frames == self.spec_length(),
                mono@.len() == frames,
                all_bounded(mono@),
                i <= frames,
                ch as int * frames == self.data@.len(),
                self.data@.len() <= usize::MAX,
                forall|k: int|
                    0 <= k < i * ch ==> #[trigger] self.data@[k] == mono@[k / (ch as int)],
            decreases frames - i,
        {
            proof {
                assert((i as int) * (ch as int) + (ch as int) <= self.data@.len() as int)
                    by (nonlinear_arith)
                    requires
                        (i as int) < frames as int,
                        (ch as int) * (frames as int) == self.data@.len() as int,
                        1 <= ch as int,
                ;
                assert(((i as int) + 1) * (ch as int) == (i as int) * (ch as int) + (ch as int))
                    by (nonlinear_arith);
            }
            let v: i64 = mono[i];
            self.write_sample(i, v);
            proof {
                let ci: int = ch as int;
                let ii: int = i as int;
                if ch == 1 {
                    assert(ii * ci == ii) by (nonlinear_arith)
                        requires ci == 1;
                } else {
                    assert(ii * ci == 2 * ii) by (nonlinear_arith)
                        requires ci == 2;
                }
                assert forall|k: int| 0 <= k < (ii + 1) * ci implies #[trigger] self.data@[k]
                    == mono@[k / ci] by {
                    if k < ii * ci {
                    } else {
                        assert(ii * ci <= k < ii * ci + ci);
                        let c: int = k - ii * ci;
                        assert(0 <= c < ci);
                        assert(self.data@[ii * ci + c] == v);
                        if ch == 1 {
                            assert(k == ii);
                            assert(k / ci == ii);
                        } else {
                            assert(2 * ii <= k < 2 * ii + 2);
                            assert(k / 2 == ii);
                        }
                        assert(self.data@[k] == v);
                    }
                }
            }
            i = i + 1;
        }
        proof {
            assert((frames as int) * (ch as int) == (ch as int) * (frames as int))
                by (nonlinear_arith);
        }
    }

    /// Read the sample at interleaved index `k`.
    pub fn sample_at(&self, k: usize) -> (r: i64)
        requires
            k < self.view().len(),
        ensures
            r == self.view()[k as int],
    {
        self.data[k]
    }

    /// Give the interleaved buffer back to the caller.
    pub fn into_samples(self) -> (r: Vec<i64>)
        ensures
            r@ == self.view(),
    {
        self.data
    }
}

/// The left stream of a signal view.
pub open spec fn left_of(s: SignalConst) -> Seq<i64> {
    Seq::new(s.spec_length() as nat, |i: int| s.view()[i * s.channels as int])
}

/// The right stream of a signal view.
pub open spec fn right_of(s: SignalConst) -> Seq<i64> {
    Seq::new(
        s.spec_length() as nat,
        |i: int| s.view()[i * s.channels as int + (s.channels as int - 1)],
    )
}

/// The mono downmix of a signal view.
pub open spec fn mono_of(s: SignalConst) -> Seq<i64> {
    Seq::new(s.spec_length() as nat, |i: int| s.mono_at(i) as i64)
}

} // verus!
