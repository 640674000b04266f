//! Shared vocabulary for the effect units: kind tags, processing outcomes,
//! and static parameter metadata.
//!
//! Parameter ranges and defaults are stored as Q16.16 fixed-point values for
//! float-valued controls, and as plain integers otherwise. Each effect binds
//! its parameters to fields through indexed getter/setter methods of its own.
use vstd::prelude::*;

verus! {

/// A unit's kind: an effect processes input, a generator produces output on
/// its own.
#[derive(Copy, Clone, Debug, Eq, PartialEq, Structural)]
pub enum DspType {
    Effect,
    Generator,
}

/// The outcome of asking a unit whether processing the next block is worth
/// doing.
#[derive(Copy, Clone, Debug, Eq, PartialEq, Structural)]
pub enum ProcessResult {
    /// Processing will produce audible output.
    Continue,
    /// Processing would hand the input through unchanged.
    SkipNoEffect,
    /// Processing would produce silence.
    SkipSilent,
}

/// A parameter's type tag with its range and default; float-valued ranges
/// are Q16.16 fixed-point.
#[allow(inconsistent_fields)]
pub enum ParameterType {
    Float { min: i64, max: i64, default: i64 },
    Int { min: i64, max: i64, default: i64, max_is_inf: bool },
    Bool { default: bool },
    Data,
    Sidechain,
}

/// Static metadata for one named control of an effect.
pub struct Parameter {
    pub ty: ParameterType,
    pub name: &'static str,
    pub unit: &'static str,
    pub desc: &'static str,
}

impl Parameter {
    /// A parameter with a name and type data, and no unit or description.
    pub fn new(name: &'static str, ty: ParameterType) -> (r: Parameter)
        ensures
            r.name == name,
            r.ty == ty,
            r.unit@ == Seq::<char>::empty(),
            r.desc@ == Seq::<char>::empty(),
    {
        proof {
            reveal_strlit("");
            assert(""@ =~= Seq::<char>::empty());
        }
        Parameter { ty, name, unit: "", desc: "" }
    }

    /// A parameter with a name, a display unit, and type data.
    pub fn with_unit(name: &'static str, unit: &'static str, ty: ParameterType) -> (r: Parameter)
        ensures
            r.name == name,
            r.ty == ty,
            r.unit == unit,
            r.desc@ == Seq::<char>::empty(),
    {
        proof {
            reveal_strlit("");
            assert(""@ =~= Seq::<char>::empty());
        }
        Parameter { ty, name, unit, desc: "" }
    }
}

/// The silence bookkeeping shared by every windowed effect: idle input
/// accumulates towards one full window, and any active input resets the
/// count.
///
/// Returns the updated count and whether a whole window of silence has gone
/// by.
pub fn track_silence(silence: usize, idle: bool, incoming: usize, window: usize) -> (r: (
    usize,
    bool,
))
    ensures
        idle && silence + incoming <= usize::MAX ==> r.0 == silence + incoming,
        idle && silence + incoming > usize::MAX ==> r.0 == usize::MAX,
        !idle ==> r.0 == 0,
        r.1 == (r.0 >= window),
{
    if idle {
        let s: usize = silence.saturating_add(incoming);
        (s, s >= window)
    } else {
        (0, 0 >= window)
    }
}

} // verus!
