//! Granular sample-triggered playback: a static mono sample array and a
//! small queue of trailing notes, mixed additively into every output block.
//!
//! A note is a `(position, end)` region of the sample array. Whenever the
//! externally driven note parameter changes, a new note is enqueued; the
//! region is picked either from the parameter value itself (sync mode) or
//! from a free-running counter (async mode). Exceeding the voice limit drops
//! the oldest note.
use vstd::prelude::*;
use circular_buffer::CircularBuffer;
use crate::dsp::{DspType, Parameter, ParameterType, ProcessResult};
use crate::fixed::{all_bounded, bounded, fadd, q_add, SCALE};
use crate::ring::{note_queue, notes_clear, notes_get, notes_len, notes_new, notes_pop_front,
    notes_push_back, notes_remove, notes_set, NOTE_SLOTS};
use crate::signal::SignalMut;

verus! {

/// How simultaneous voices combine (stored setting; mixing always sums).
#[derive(Copy, Clone, Debug, Eq, PartialEq, Structural)]
pub enum VoiceMode {
    Combine,
    Average,
    Overtake,
}

/// Granular note-triggering player over a loaded mono sample array.
pub struct CassettePlayer {
    /// Loaded mono sample data.
    pub samples: Vec<i64>,
    /// How many equal note regions the content window is divided into.
    pub num_notes: usize,
    /// Trigger regions from a free-running counter instead of the note
    /// parameter's value.
    pub async_mode: bool,
    /// Start of the content window, percent of the array in Q16.16.
    pub start_offset_q: i64,
    /// End of the content window, percent of the array in Q16.16.
    pub end_offset_q: i64,
    /// Voice limit for simultaneously trailing notes.
    pub voices: u8,
    /// Stored voice-combination setting.
    pub voice_mode: VoiceMode,
    /// Externally driven note position, a fraction of one in Q16.16.
    pub note_frac_q: i64,
    /// The trailing notes still being played out.
    pub trailing_notes: CircularBuffer<8, (usize, usize)>,
    /// The note parameter's value on the previous call.
    pub prev_note_frac_q: i64,
    /// Free-running note counter for async mode.
    pub async_note_tick: usize,
}

/// The lesser of two mathematical integers.
pub open spec fn min_i(a: int, b: int) -> int {
    if a < b { a } else { b }
}

/// One note's additive contribution to output sample `i`: the sample under
/// its cursor while the region lasts, silence afterwards.
pub open spec fn note_contrib(samples: Seq<i64>, n: (usize, usize), i: int) -> int {
    if n.0 + i < n.1 && n.0 + i < samples.len() {
        samples[n.0 + i] as int
    } else {
        0
    }
}

/// The mixed value of output sample `i`: the saturating sum of every queued
/// note's contribution.
pub open spec fn mix_at(samples: Seq<i64>, notes: Seq<(usize, usize)>, i: int) -> int
    decreases notes.len(),
{
    if notes.len() == 0 {
        0
    } else {
        q_add(note_contrib(samples, notes[0], i), mix_at(samples, notes.drop_first(), i))
    }
}

/// Every note advanced by one block, with finished notes removed.
pub open spec fn advance_notes(notes: Seq<(usize, usize)>, out_len: int) -> Seq<(usize, usize)>
    decreases notes.len(),
{
    if notes.len() == 0 {
        Seq::empty()
    } else {
        let n = notes[0];
        let rest = advance_notes(notes.drop_first(), out_len);
        if n.0 + out_len < n.1 {
            seq![(((n.0 + out_len) as usize), n.1)] + rest
        } else {
            rest
        }
    }
}

/// The note queue after enqueueing `n`: the buffer drops its oldest entry
/// at capacity, and the voice limit then drops the oldest surplus note.
pub open spec fn enqueue_note(
    q0: Seq<(usize, usize)>,
    n: (usize, usize),
    voices: int,
) -> Seq<(usize, usize)> {
    let q1 = if q0.len() < NOTE_SLOTS {
        q0.push(n)
    } else {
        q0.drop_first().push(n)
    };
    if q1.len() > voices {
        q1.drop_first()
    } else {
        q1
    }
}

/// The free-running counter after one call: it advances by one, wrapping
/// at the region count, exactly when an async-mode trigger fired.
pub open spec fn spec_tick_after(s: CassettePlayer) -> int {
    if s.note_frac_q != s.prev_note_frac_q && s.async_mode {
        if s.async_note_tick + 1 == s.num_notes {
            0
        } else {
            s.async_note_tick + 1
        }
    } else {
        s.async_note_tick as int
    }
}

impl CassettePlayer {
    /// Structural invariant: positive region count, voice limit within the
    /// queue capacity, parameter values inside their declared ranges, a
    /// bounded sample array, and every queued note inside the array.
    pub open spec fn wf(self) -> bool {
        &&& 1 <= self.num_notes <= 4096
        &&& 1 <= self.voices <= 8
        &&& 0 <= self.start_offset_q <= 100 * SCALE
        &&& 0 <= self.end_offset_q <= 100 * SCALE
        &&& 0 <= self.note_frac_q <= SCALE
        &&& self.async_note_tick < self.num_notes
        &&& all_bounded(self.samples@)
        &&& forall|i: int|
            0 <= i < note_queue(self.trailing_notes).len() ==> (
            #[trigger] note_queue(self.trailing_notes)[i]).0 <= note_queue(self.trailing_notes)[
                i
            ].1 <= self.samples@.len()
    }

    /// First sample index of the content window: the start-offset percent
    /// of the array.
    pub open spec fn spec_start_idx(self) -> int {
        min_i(
            self.samples@.len() as int * self.start_offset_q / (100 * SCALE as int),
            self.samples@.len() as int,
        )
    }

    /// One-past-last sample index of the content window: the end-offset
    /// percent of the array.
    pub open spec fn spec_end_idx(self) -> int {
        min_i(
            self.samples@.len() as int * self.end_offset_q / (100 * SCALE as int),
            self.samples@.len() as int,
        )
    }

    /// Length of the content window.
    pub open spec fn spec_content_len(self) -> int {
        if self.spec_end_idx() >= self.spec_start_idx() {
            self.spec_end_idx() - self.spec_start_idx()
        } else {
            0
        }
    }

    /// The note region selected by fraction `p` (Q16.16, within one): it
    /// starts `p` of the way into the content window and spans one
    /// `num_notes`-th of it, clipped to the sample array.
    pub open spec fn spec_note_at(self, p: int) -> (int, int) {
        let start = self.spec_content_len() * p / (SCALE as int) + self.spec_start_idx();
        let end = start + self.spec_content_len() / (self.num_notes as int);
        (start, min_i(end, self.samples@.len() as int))
    }

    pub fn name() -> (r: &'static str)
        ensures
            r@ == "CassettePlayer"@,
    {
        "CassettePlayer"
    }

    pub fn version() -> (r: u32)
        ensures
            r == 1,
    {
        1
    }

    pub fn ty() -> (r: DspType)
        ensures
            r == DspType::Generator,
    {
        DspType::Generator
    }

    /// Static parameter metadata; ranges match the setters' preconditions
    /// and the defaults match `create`.
    pub fn parameters() -> (r: Vec<Parameter>)
        ensures
            r@.len() == 8,
            r@[0].name@ == "samples"@ && r@[0].ty == ParameterType::Data,
            r@[1].name@ == "num_notes"@ && r@[1].ty == (ParameterType::Int {
                min: 1i64,
                max: 4096i64,
                default: 256i64,
                max_is_inf: false,
            }),
            r@[2].name@ == "async"@ && r@[2].ty == (ParameterType::Bool { default: false }),
            r@[3].name@ == "start_offset"@ && r@[3].unit@ == "%"@ && r@[3].ty == (
            ParameterType::Float { min: 0, max: (100 * SCALE) as i64, default: 0 }),
            r@[4].name@ == "end_offset"@ && r@[4].unit@ == "%"@ && r@[4].ty == (
            ParameterType::Float {
                min: 0,
                max: (100 * SCALE) as i64,
                default: (100 * SCALE) as i64,
            }),
            r@[5].name@ == "voices"@ && r@[5].ty == (ParameterType::Int {
                min: 1i64,
                max: 8i64,
                default: 4i64,
                max_is_inf: false,
            }),
            r@[6].name@ == "voice_mode"@ && r@[6].ty == (ParameterType::Int {
                min: 0i64,
                max: 2i64,
                default: 0i64,
                max_is_inf: false,
            }),
            r@[7].name@ == "note"@ && r@[7].ty == (ParameterType::Float {
                min: 0,
                max: SCALE,
                default: 0,
            }),
    {
        let mut v: Vec<Parameter> = Vec::new();
        v.push(Parameter::new("samples", ParameterType::Data));
        v.push(
            Parameter::new(
                "num_notes",
                ParameterType::Int { min: 1, max: 4096, default: 256, max_is_inf: false },
            ),
        );
        v.push(Parameter::new("async", ParameterType::Bool { default: false }));
        v.push(
            Parameter::with_unit(
                "start_offset",
                "%",
                ParameterType::Float { min: 0, max: 100 * SCALE, default: 0 },
            ),
        );
        v.push(
            Parameter::with_unit(
                "end_offset",
                "%",
                ParameterType::Float { min: 0, max: 100 * SCALE, default: 100 * SCALE },
            ),
        );
        v.push(
            Parameter::new(
                "voices",
                ParameterType::Int { min: 1, max: 8, default: 4, max_is_inf: false },
            ),
        );
        v.push(
            Parameter::new(
                "voice_mode",
                ParameterType::Int { min: 0, max: 2, default: 0, max_is_inf: false },
            ),
        );
        v.push(
            Parameter::new("note", ParameterType::Float { min: 0, max: SCALE, default: 0 }),
        );
        v
    }

    /// A player with every parameter at its declared default and no loaded
    /// samples; the sentinel previous value makes the first trigger fire.
    pub fn create() -> (r: CassettePlayer)
        ensures
            r.wf(),
            r.samples@.len() == 0,
            note_queue(r.trailing_notes).len() == 0,
            r.num_notes == 256,
            r.voices == 4,
            !r.async_mode,
            r.start_offset_q == 0,
            r.end_offset_q == 100 * SCALE,
            r.voice_mode == VoiceMode::Combine,
            r.note_frac_q == 0,
            r.prev_note_frac_q == 2 * SCALE,
            r.async_note_tick == 0,
    {
        CassettePlayer {
            samples: Vec::new(),
            num_notes: 256,
            async_mode: false,
            start_offset_q: 0,
            end_offset_q: 100 * SCALE,
            voices: 4,
            voice_mode: VoiceMode::Combine,
            note_frac_q: 0,
            trailing_notes: notes_new(),
            prev_note_frac_q: 2 * SCALE,
            async_note_tick: 0,
        }
    }

    /// Drop all trailing notes and re-arm the first trigger; the loaded
    /// samples and every parameter keep their values.
    pub fn reset(&mut self)
        requires
            old(self).wf(),
        ensures
            final(self).wf(),
            note_queue(final(self).trailing_notes).len() == 0,
            *final(self) == (CassettePlayer {
                trailing_notes: final(self).trailing_notes,
                prev_note_frac_q: (2 * SCALE) as i64,
                ..*old(self)
            }),
    {
        notes_clear(&mut self.trailing_notes);
        self.prev_note_frac_q = 2 * SCALE;
    }

    /// The player always runs: queued notes must play out even over silent
    /// input, and triggering is parameter-driven.
    pub fn should_process(&mut self, idle: bool, incoming_length: usize) -> (r: ProcessResult)
        ensures
            r == ProcessResult::Continue,
    {
        ProcessResult::Continue
    }

    pub fn preferred_out_channels(&self) -> (r: Option<usize>)
        ensures
            r == Some(2usize),
    {
        Some(2)
    }

    /// Load a new mono sample array. Queued notes reference the old array,
    /// so they are dropped.
    pub fn set_samples(&mut self, samples: Vec<i64>)
        requires
            old(self).wf(),
            all_bounded(samples@),
        ensures
            final(self).wf(),
            final(self).samples == samples,
            note_queue(final(self).trailing_notes).len() == 0,
    {
        self.samples = samples;
        notes_clear(&mut self.trailing_notes);
    }

    /// Compute the note region for fraction `p` (Q16.16, at most one).
    pub fn note_at_pos(&self, p: i64) -> (r: (usize, usize))
        requires
            self.wf(),
            0 <= p <= SCALE,
        ensures
            (r.0 as int, r.1 as int) == self.spec_note_at(p as int),
            r.0 <= r.1 <= self.samples@.len(),
    {
        let len: usize = self.samples.len();
        let clen: usize = self.content_len();
        let sidx: usize = self.start_idx();
        proof {
            assert((clen as int) * (p as int) <= (clen as int) * (SCALE as int)
                && 0 <= (clen as int) * (p as int)) by (nonlinear_arith)
                requires
                    0 <= p as int <= SCALE as int,
                    0 <= clen as int,
            ;
            assert(self.spec_content_len() * (p as int) / (SCALE as int) <= self.spec_content_len())
                by (nonlinear_arith)
                requires
                    0 <= p as int <= SCALE as int,
                    0 <= self.spec_content_len(),
                    SCALE as int == 65536,
            ;
            assert(sidx as int + clen as int <= len as int);
        }
        let pstart: u128 = (clen as u128) * (p as u128) / (SCALE as u128);
        let start: usize = (pstart as usize) + sidx;
        let nl: usize = clen / self.num_notes;
        let pend: u128 = (start as u128) + (nl as u128);
        let end: usize = if pend > len as u128 {
            len
        } else {
            start + nl
        };
        (start, end)
    }

    /// First sample index of the content window.
    pub fn start_idx(&self) -> (r: usize)
        requires
            self.wf(),
        ensures
            r as int == self.spec_start_idx(),
    {
        let len: usize = self.samples.len();
        proof {
            assert((len as int) * (self.start_offset_q as int) <= (len as int) * (100 * SCALE)
                && 0 <= (len as int) * (self.start_offset_q as int)) by (nonlinear_arith)
                requires
                    0 <= self.start_offset_q as int <= 100 * SCALE,
                    0 <= len as int,
            ;
        }
        let p: u128 = (len as u128) * (self.start_offset_q as u128) / (100 * SCALE as u128);
        if p > len as u128 {
            len
        } else {
            p as usize
        }
    }

    /// One-past-last sample index of the content window.
    pub fn end_idx(&self) -> (r: usize)
        requires
            self.wf(),
        ensures
            r as int == self.spec_end_idx(),
    {
        let len: usize = self.samples.len();
        proof {
            assert((len as int) * (self.end_offset_q as int) <= (len as int) * (100 * SCALE)
                && 0 <= (len as int) * (self.end_offset_q as int)) by (nonlinear_arith)
                requires
                    0 <= self.end_offset_q as int <= 100 * SCALE,
                    0 <= len as int,
            ;
        }
        let p: u128 = (len as u128) * (self.end_offset_q as u128) / (100 * SCALE as u128);
        if p > len as u128 {
            len
        } else {
            p as usize
        }
    }

    /// Length of the content window.
    pub fn content_len(&self) -> (r: usize)
        requires
            self.wf(),
        ensures
            r as int == self.spec_content_len(),
    {
        let e: usize = self.end_idx();
        let s: usize = self.start_idx();
        if e >= s {
            e - s
        } else {
            0
        }
    }

    /// Rough length of one note region.
    pub fn approx_note_len(&self) -> (r: usize)
        requires
            self.wf(),
        ensures
            r as int == self.spec_content_len() / (self.num_notes as int),
    {
        self.content_len() / self.num_notes
    }

    /// The fraction the trigger uses: the note parameter in sync mode, the
    /// free-running counter's position in async mode.
    pub open spec fn spec_trigger_frac(self) -> int {
        if self.async_mode {
            self.async_note_tick * (SCALE as int) / (self.num_notes as int)
        } else {
            self.note_frac_q as int
        }
    }

    /// The note queue after this call's trigger phase: unchanged when the
    /// note parameter kept its value, otherwise the newly selected region is
    /// enqueued under the voice limit.
    pub open spec fn spec_triggered(self) -> Seq<(usize, usize)> {
        if self.note_frac_q != self.prev_note_frac_q {
            let n = self.spec_note_at(self.spec_trigger_frac());
            enqueue_note(
                note_queue(self.trailing_notes),
                (n.0 as usize, n.1 as usize),
                self.voices as int,
            )
        } else {
            note_queue(self.trailing_notes)
        }
    }

    /// Run the trigger phase and mix every queued note into one mono block,
    /// advancing and retiring notes as they play out.
    pub fn mix_block(&mut self, out_len: usize) -> (out: Vec<i64>)
        requires
            old(self).wf(),
        ensures
            out@.len() == out_len,
            all_bounded(out@),
            forall|i: int|
                0 <= i < out_len ==> out@[i] == mix_at(
                    old(self).samples@,
                    old(self).spec_triggered(),
                    i,
                ),
            note_queue(final(self).trailing_notes) == advance_notes(
                old(self).spec_triggered(),
                out_len as int,
            ),
            final(self).wf(),
            final(self).samples == old(self).samples,
            final(self).prev_note_frac_q == old(self).note_frac_q,
            final(self).note_frac_q == old(self).note_frac_q,
            final(self).num_notes == old(self).num_notes,
            final(self).voices == old(self).voices,
            final(self).async_mode == old(self).async_mode,
            final(self).start_offset_q == old(self).start_offset_q,
            final(self).end_offset_q == old(self).end_offset_q,
            final(self).voice_mode == old(self).voice_mode,
            final(self).async_note_tick as int == spec_tick_after(*old(self)),
    {
        let mut out: Vec<i64> = Vec::new();
        let mut z: usize = 0;
        while z < out_len
            invariant
                z <= out_len,
                out@.len() == z,
                forall|j: int| 0 <= j < z ==> #[trigger] out@[j] == 0i64,
                all_bounded(out@),
            decreases out_len - z,
        {
            out.push(0);
            z = z + 1;
        }
        // trigger a new note when the parameter moved
        if self.note_frac_q != self.prev_note_frac_q {
            let frac: i64 = if self.async_mode {
                proof {
                    assert(
                        (self.async_note_tick as int) * (SCALE as int) / (self.num_notes as int)
                            < SCALE as int) by (nonlinear_arith)
                        requires
                            0 <= self.async_note_tick as int,
                            (self.async_note_tick as int) < self.num_notes as int,
                            SCALE as int == 65536,
                    ;
                    assert((self.async_note_tick as int) * (SCALE as int) <= 4096 * 65536
                        && 0 <= (self.async_note_tick as int) * (SCALE as int))
                        by (nonlinear_arith)
                        requires
                            0 <= (self.async_note_tick as int),
                            (self.async_note_tick as int) < 4096,
                            SCALE as int == 65536,
                    ;
                }
                let f: u64 = (self.async_note_tick as u64) * (SCALE as u64) / (
                self.num_notes as u64);
                f as i64
            } else {
                self.note_frac_q
            };
            let n: (usize, usize) = self.note_at_pos(frac);
            notes_push_back(&mut self.trailing_notes, n);
            if self.async_mode {
                self.async_note_tick = self.async_note_tick + 1;
                if self.async_note_tick >= self.num_notes {
                    self.async_note_tick = 0;
                }
            }
            if notes_len(&self.trailing_notes) > self.voices as usize {
                let _ = notes_pop_front(&mut self.trailing_notes);
            }
        }
        self.prev_note_frac_q = self.note_frac_q;
        let ghost mid: CassettePlayer = *self;
        let ghost notes1: Seq<(usize, usize)> = old(self).spec_triggered();
        proof {
            assert(note_queue(self.trailing_notes) =~= notes1);
        }
        // mix the queued notes back to front, advancing each
        let mut nidx: usize = notes_len(&self.trailing_notes);
        proof {
            assert(notes1.take(nidx as int) =~= notes1);
            assert(notes1.skip(nidx as int) =~= Seq::<(usize, usize)>::empty());
        }
        while nidx > 0
            invariant
                nidx <= notes1.len(),
                self.samples == mid.samples,
                self.num_notes == mid.num_notes,
                self.async_mode == mid.async_mode,
                self.start_offset_q == mid.start_offset_q,
                self.end_offset_q == mid.end_offset_q,
                self.voices == mid.voices,
                self.voice_mode == mid.voice_mode,
                self.note_frac_q == mid.note_frac_q,
                self.prev_note_frac_q == mid.prev_note_frac_q,
                self.async_note_tick == mid.async_note_tick,
                mid.wf(),
                note_queue(self.trailing_notes) =~= notes1.take(nidx as int) + advance_notes(
                    notes1.skip(nidx as int),
                    out_len as int,
                ),
                forall|i: int|
                    0 <= i < notes1.len() ==> (#[trigger] notes1[i]).0 <= notes1[i].1
                        <= self.samples@.len(),
                forall|i: int|
                    0 <= i < note_queue(self.trailing_notes).len() ==> (#[trigger] note_queue(
                        self.trailing_notes,
                    )[i]).0 <= note_queue(self.trailing_notes)[i].1 <= self.samples@.len(),
                out@.len() == out_len,
                all_bounded(out@),
                all_bounded(self.samples@),
                forall|i: int|
                    0 <= i < out_len ==> out@[i] == mix_at(
                        self.samples@,
                        notes1.skip(nidx as int),
                        i,
                    ),
                self.samples == old(self).samples,
            decreases nidx,
        {
            nidx = nidx - 1;
            let ghost qpre: Seq<(usize, usize)> = note_queue(self.trailing_notes);
            proof {
                assert(qpre[nidx as int] == notes1.take(nidx as int + 1)[nidx as int]);
                assert(notes1.take(nidx as int + 1)[nidx as int] == notes1[nidx as int]);
            }
            let note: (usize, usize) = notes_get(&self.trailing_notes, nidx);
            let rem: usize = note.1 - note.0;
            let note_len: usize = if rem < out_len {
                rem
            } else {
                out_len
            };
            let ghost out_pre: Seq<i64> = out@;
            let mut i: usize = 0;
            while i < note_len
                invariant
                    i <= note_len,
                    note_len <= out_len,
                    note.0 + note_len <= note.1 <= self.samples@.len(),
                    note_len as int == min_i(note.1 - note.0, out_len as int),
                    out@.len() == out_len,
                    out_pre.len() == out_len,
                    all_bounded(out@),
                    all_bounded(out_pre),
                    all_bounded(self.samples@),
                    forall|j: int|
                        0 <= j < i ==> out@[j] == q_add(
                            out_pre[j] as int,
                            self.samples@[note.0 + j] as int,
                        ),
                    forall|j: int| i <= j < out_len ==> out@[j] == out_pre[j],
                decreases note_len - i,
            {
                let old_v: i64 = out[i];
                let s: i64 = self.samples[note.0 + i];
                out[i] = fadd(old_v, s);
                i = i + 1;
            }
            proof {
                let ghost skip_cur: Seq<(usize, usize)> = notes1.skip(nidx as int);
                assert(skip_cur[0] == notes1[nidx as int]);
                assert(skip_cur.drop_first() =~= notes1.skip(nidx as int + 1));
                assert forall|j: int| 0 <= j < out_len implies out@[j] == mix_at(
                    self.samples@,
                    skip_cur,
                    j,
                ) by {
                    let c: int = note_contrib(self.samples@, note, j);
                    if j < note_len {
                        assert(out@[j] == q_add(out_pre[j] as int, self.samples@[note.0 + j] as int));
                        assert(c == self.samples@[note.0 + j] as int);
                    } else {
                        assert(c == 0);
                        assert(out@[j] == out_pre[j]);
                    }
                    assert(mix_at(self.samples@, skip_cur, j) == q_add(
                        c,
                        mix_at(self.samples@, skip_cur.drop_first(), j),
                    ));
                }
            }
            let new_pos: usize = note.0 + note_len;
            notes_set(&mut self.trailing_notes, nidx, (new_pos, note.1));
            if note.1 - new_pos == 0 {
                notes_remove(&mut self.trailing_notes, nidx);
                proof {
                    assert(note_queue(self.trailing_notes) =~= notes1.take(nidx as int)
                        + advance_notes(notes1.skip(nidx as int), out_len as int));
                }
            } else {
                proof {
                    assert(note_queue(self.trailing_notes) =~= notes1.take(nidx as int)
                        + advance_notes(notes1.skip(nidx as int), out_len as int));
                }
            }
        }
        proof {
            assert(notes1.take(0) =~= Seq::<(usize, usize)>::empty());
            assert(notes1.skip(0) =~= notes1);
            assert(note_queue(self.trailing_notes) =~= advance_notes(notes1, out_len as int));
        }
        out
    }

    /// One processing call: trigger, mix, and write the mono mix to every
    /// output channel.
    pub fn read(&mut self, output: &mut SignalMut)
        requires
            old(self).wf(),
            old(output).wf(),
        ensures
            final(output).wf(),
            final(output).channels == old(output).channels,
            final(output).view().len() == old(output).view().len(),
            forall|k: int|
                0 <= k < final(output).view().len() ==> final(output).view()[k] == mix_at(
                    old(self).samples@,
                    old(self).spec_triggered(),
                    k / (old(output).channels as int),
                ),
            note_queue(final(self).trailing_notes) == advance_notes(
                old(self).spec_triggered(),
                old(output).spec_length(),
            ),
            final(self).wf(),
            final(self).samples == old(self).samples,
            final(self).prev_note_frac_q == old(self).note_frac_q,
            final(self).note_frac_q == old(self).note_frac_q,
            final(self).num_notes == old(self).num_notes,
            final(self).voices == old(self).voices,
            final(self).async_mode == old(self).async_mode,
            final(self).start_offset_q == old(self).start_offset_q,
            final(self).end_offset_q == old(self).end_offset_q,
            final(self).voice_mode == old(self).voice_mode,
            final(self).async_note_tick as int == spec_tick_after(*old(self)),
    {
        let out_len: usize = output.length();
        let block: Vec<i64> = self.mix_block(out_len);
        output.write_frames(&block);
        proof {
            let ci: int = old(output).channels as int;
            let frames: int = old(output).spec_length();
            vstd::arithmetic::div_mod::lemma_fundamental_div_mod(
                old(output).view().len() as int,
                ci,
            );
            assert forall|k: int| 0 <= k < final(output).view().len() implies final(output).view()[
                k
            ] == mix_at(
                old(self).samples@,
                old(self).spec_triggered(),
                k / ci,
            ) by {
                vstd::arithmetic::div_mod::lemma_div_pos_is_pos(k, ci);
                vstd::arithmetic::div_mod::lemma_multiply_divide_lt(k, ci, frames);
            }
        }
    }

    /// Set the region count; the async counter wraps into the new range.
    pub fn set_num_notes(&mut self, v: usize)
        requires
            old(self).wf(),
            1 <= v <= 4096,
        ensures
            final(self).wf(),
            final(self).num_notes == v,
            *final(self) == (CassettePlayer {
                num_notes: v,
                async_note_tick: final(self).async_note_tick,
                ..*old(self)
            }),
    {
        self.num_notes = v;
        if self.async_note_tick >= v {
            self.async_note_tick = 0;
        }
    }

    pub fn set_async(&mut self, v: bool)
        requires
            old(self).wf(),
        ensures
            final(self).wf(),
            *final(self) == (CassettePlayer { async_mode: v, ..*old(self) }),
    {
        self.async_mode = v;
    }

    pub fn set_start_offset(&mut self, v: i64)
        requires
            old(self).wf(),
            0 <= v <= 100 * SCALE,
        ensures
            final(self).wf(),
            *final(self) == (CassettePlayer { start_offset_q: v, ..*old(self) }),
    {
        self.start_offset_q = v;
    }

    pub fn set_end_offset(&mut self, v: i64)
        requires
            old(self).wf(),
            0 <= v <= 100 * SCALE,
        ensures
            final(self).wf(),
            *final(self) == (CassettePlayer { end_offset_q: v, ..*old(self) }),
    {
        self.end_offset_q = v;
    }

    pub fn set_voices(&mut self, v: u8)
        requires
            old(self).wf(),
            1 <= v <= 8,
        ensures
            final(self).wf(),
            *final(self) == (CassettePlayer { voices: v, ..*old(self) }),
    {
        self.voices = v;
    }

    pub fn set_voice_mode(&mut self, v: VoiceMode)
        requires
            old(self).wf(),
        ensures
            final(self).wf(),
            *final(self) == (CassettePlayer { voice_mode: v, ..*old(self) }),
    {
        self.voice_mode = v;
    }

    /// Set the note-trigger parameter; the next call compares it against
    /// the previous value.
    pub fn set_note(&mut self, v: i64)
        requires
            old(self).wf(),
            0 <= v <= SCALE,
        ensures
            final(self).wf(),
            *final(self) == (CassettePlayer { note_frac_q: v, ..*old(self) }),
    {
        self.note_frac_q = v;
    }
}

/// With the content window spanning the whole array (offsets 0% and 100%),
/// the region triggered at fraction `p` starts `p` of the way into the
/// array and spans one `num_notes`-th of it, clipped to the array's end.
pub proof fn lemma_note_region_full_window(s: CassettePlayer, p: int)
    requires
        s.wf(),
        s.start_offset_q == 0,
        s.end_offset_q == 100 * SCALE,
        0 <= p <= SCALE,
    ensures
        s.spec_note_at(p).0 == s.samples@.len() as int * p / (SCALE as int),
        s.spec_note_at(p).1 == min_i(
            s.spec_note_at(p).0 + s.samples@.len() as int / (s.num_notes as int),
            s.samples@.len() as int,
        ),
{
    let len: int = s.samples@.len() as int;
    assert(len * 0 == 0);
    assert(s.spec_start_idx() == 0);
    vstd::arithmetic::div_mod::lemma_div_by_multiple(len, 100 * (SCALE as int));
    assert(len * (100 * (SCALE as int)) / (100 * (SCALE as int)) == len);
    assert(s.spec_end_idx() == len);
    assert(s.spec_content_len() == len);
}

/// Two triggers in immediate succession against a queue already at the
/// voice limit drop exactly the oldest note.
pub proof fn lemma_voice_limit_drops_oldest(
    q0: Seq<(usize, usize)>,
    n: (usize, usize),
    voices: int,
)
    requires
        1 <= voices <= NOTE_SLOTS,
        q0.len() == voices,
    ensures
        enqueue_note(q0, n, voices) == q0.drop_first().push(n),
{
    if q0.len() < NOTE_SLOTS {
        assert((q0.push(n)).drop_first() =~= q0.drop_first().push(n));
    } else {
        assert(q0.drop_first().push(n).len() == voices);
    }
}

} // verus!
