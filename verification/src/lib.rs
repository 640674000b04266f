//! Streaming spectral audio engine: ring-buffered windowing, overlap-add
//! reconstruction, and a closed set of effect algorithms (noise reduction,
//! vocoding, spectral detune with echo, click synthesis, granular playback).
//!
//! All signal arithmetic is carried out on Q16.16 fixed-point samples so the
//! processing discipline can be stated and checked exactly; the host adapter
//! converts to and from the float domain at the boundary.
use vstd::prelude::*;

pub mod fixed;
pub mod ring;
pub mod signal;
pub mod dsp;
pub mod host;
pub mod pipeline;
pub mod spectrum;
pub mod cassette;
pub mod noise_reduction;
pub mod vocoder;
pub mod fantasy;
pub mod click;
pub mod dynamics;
pub mod exact;
pub mod windy;

verus! {

} // verus!
