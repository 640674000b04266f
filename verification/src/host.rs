//! Host-facing plumbing types: the host status code with its result adapter,
//! and index lenses that name one parameter of a unit instance.
use vstd::prelude::*;

verus! {

/// Status code returned by every host call; `FMOD_OK` means success.
#[allow(non_camel_case_types)]
#[derive(Copy, Clone, Debug, Eq, PartialEq, Structural)]
pub enum FMOD_RESULT {
    FMOD_OK,
    FMOD_ERR_DSP_DONTPROCESS,
    FMOD_ERR_DSP_SILENCE,
    FMOD_ERR_INVALID_PARAM,
    FMOD_ERR_MEMORY,
    FMOD_ERR_PLUGIN,
    FMOD_ERR_UNINITIALIZED,
}

/// A failed host call, carrying the status code that was returned.
#[derive(Copy, Clone, Debug, Eq, PartialEq, Structural)]
pub struct FmodError(pub FMOD_RESULT);

/// Outcome of a host call.
pub type FmodResult<T> = Result<T, FmodError>;

impl FMOD_RESULT {
    /// Turn a status code into a result, building the success value lazily
    /// only when the code is `FMOD_OK`.
    pub fn ok_then<T, F: FnOnce() -> T>(self, value: F) -> (r: FmodResult<T>)
        requires
            self == FMOD_RESULT::FMOD_OK ==> call_requires(value, ()),
        ensures
            self == FMOD_RESULT::FMOD_OK ==> r is Ok && call_ensures(value, (), r->Ok_0),
            self != FMOD_RESULT::FMOD_OK ==> r == FmodResult::<T>::Err(FmodError(self)),
    {
        if self == FMOD_RESULT::FMOD_OK {
            return Ok(value());
        }
        Err(FmodError(self))
    }
}

/// Names the float parameter at an index of a unit instance.
#[derive(Copy, Clone, Debug, Hash)]
pub struct FloatParamLens {
    pub idx: usize,
}

impl FloatParamLens {
    pub fn new(idx: usize) -> (r: Self)
        ensures
            r.idx == idx,
    {
        Self { idx }
    }
}

/// Names the boolean parameter at an index of a unit instance.
#[derive(Copy, Clone, Debug, Hash)]
pub struct BoolParamLens {
    pub idx: usize,
}

impl BoolParamLens {
    pub fn new(idx: usize) -> (r: Self)
        ensures
            r.idx == idx,
    {
        Self { idx }
    }
}

/// Names the integer parameter at an index of a unit instance.
#[derive(Copy, Clone, Debug, Hash)]
pub struct IntParamLens {
    pub idx: usize,
}

impl IntParamLens {
    pub fn new(idx: usize) -> (r: Self)
        ensures
            r.idx == idx,
    {
        Self { idx }
    }
}

} // verus!
