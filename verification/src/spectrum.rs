//! Operations on complex spectral bins.
//!
//! A spectrum is a vector of `(re, im)` pairs in Q16.16 fixed point, one per
//! frequency bin of a transformed window.
use vstd::prelude::*;
use crate::fixed::{
    bounded, fdiv, fmul, fnorm, fsub, q_div, q_mul, q_norm, q_sub,
};

verus! {

/// Every part of every bin is within the arithmetic kernel's bound.
pub open spec fn bins_bounded(s: Seq<(i64, i64)>) -> bool {
    forall|i: int|
        0 <= i < s.len() ==> bounded(#[trigger] s[i].0) && bounded(s[i].1)
}

/// Every bin is exactly zero.
pub open spec fn bins_zero(s: Seq<(i64, i64)>) -> bool {
    forall|i: int| 0 <= i < s.len() ==> #[trigger] s[i] == (0i64, 0i64)
}

/// Both parts of a bin scaled by a fixed-point factor.
pub open spec fn q_bin_scale(b: (i64, i64), f: int) -> (int, int) {
    (q_mul(b.0 as int, f), q_mul(b.1 as int, f))
}

/// Magnitude-domain subtraction preserving phase: the bin rescaled so that
/// its magnitude drops by `p`. A silent bin becomes the real value `-p`, as
/// rescaling through a zero magnitude has no phase to keep.
pub open spec fn q_mag_sub(p: int, b: (i64, i64)) -> (int, int) {
    let m = q_norm(b.0 as int, b.1 as int);
    if m == 0 {
        (-p, 0)
    } else {
        let f = q_div(q_sub(m, p), m);
        (q_mul(b.0 as int, f), q_mul(b.1 as int, f))
    }
}

/// Scale both parts of a bin by a fixed-point factor.
pub fn bin_scale(b: (i64, i64), f: i64) -> (r: (i64, i64))
    requires
        bounded(b.0),
        bounded(b.1),
        bounded(f),
    ensures
        (r.0 as int, r.1 as int) == q_bin_scale(b, f as int),
        bounded(r.0),
        bounded(r.1),
{
    (fmul(b.0, f), fmul(b.1, f))
}

/// Subtract `p` from the bin's magnitude while keeping its phase.
pub fn mag_sub(p: i64, b: (i64, i64)) -> (r: (i64, i64))
    requires
        0 <= p,
        bounded(p),
        bounded(b.0),
        bounded(b.1),
    ensures
        (r.0 as int, r.1 as int) == q_mag_sub(p as int, b),
        bounded(r.0),
        bounded(r.1),
{
    let m: i64 = fnorm(b.0, b.1);
    if m == 0 {
        (-p, 0)
    } else {
        let f: i64 = fdiv(fsub(m, p), m);
        (fmul(b.0, f), fmul(b.1, f))
    }
}

} // verus!
