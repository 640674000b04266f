//! Exact sidechain passthrough: the output block is a verbatim copy of the
//! sidechain input, when one is connected.
use vstd::prelude::*;
use crate::dsp::{DspType, Parameter, ParameterType};
use crate::signal::{SignalConst, SignalMut};

verus! {

/// Unit that reproduces its sidechain input exactly.
pub struct ExactOut {
    /// Whether a sidechain input is connected.
    pub sidechain_enabled: bool,
}

impl ExactOut {
    pub fn name() -> (r: &'static str)
        ensures
            r@ == "Exact"@,
    {
        "Exact"
    }

    pub fn version() -> (r: u32)
        ensures
            r == 1,
    {
        1
    }

    pub fn ty() -> (r: DspType)
        ensures
            r == DspType::Effect,
    {
        DspType::Effect
    }

    /// Static parameter metadata: the single sidechain input.
    pub fn parameters() -> (r: Vec<Parameter>)
        ensures
            r@.len() == 1,
            r@[0].name@ == "sidechain"@ && r@[0].ty == ParameterType::Sidechain,
    {
        let mut v: Vec<Parameter> = Vec::new();
        v.push(Parameter::new("sidechain", ParameterType::Sidechain));
        v
    }

    pub fn create() -> (r: ExactOut)
        ensures
            !r.sidechain_enabled,
    {
        ExactOut { sidechain_enabled: false }
    }

    pub fn reset(&mut self)
        ensures
            *final(self) == *old(self),
    {
    }

    /// Copy the sidechain block into the output verbatim; with no sidechain
    /// the output is left untouched.
    pub fn read(&mut self, sidechain: Option<&SignalConst>, output: &mut SignalMut)
        requires
            old(output).wf(),
            sidechain is Some ==> sidechain->0.wf() && sidechain->0.view().len() == old(
                output,
            ).view().len(),
        ensures
            *final(self) == *old(self),
            final(output).wf(),
            final(output).channels == old(output).channels,
            final(output).view().len() == old(output).view().len(),
            sidechain is Some ==> final(output).view() == sidechain->0.view(),
            sidechain is None ==> final(output).view() == old(output).view(),
    {
        match sidechain {
            None => {},
            Some(sc) => {
                let n: usize = output.data.len();
                let mut k: usize = 0;
                while k < n
                    invariant
                        sc.wf(),
                        n == output.data@.len(),
                        output.data@.len() == old(output).data@.len(),
                        output.data@.len() == sc.view().len(),
                        output.channels == old(output).channels,
                        output.data@.len() as int % (output.channels as int) == 0,
                        1 <= output.channels <= 2,
                        k <= n,
                        crate::fixed::all_bounded(output.data@),
                        forall|j: int| 0 <= j < k ==> #[trigger] output.data@[j] == sc.view()[j],
                    decreases n - k,
                {
                    output.data[k] = sc.data[k];
                    k = k + 1;
                }
                proof {
                    assert(output.data@ =~= sc.view());
                }
            },
        }
    }
}

} // verus!
