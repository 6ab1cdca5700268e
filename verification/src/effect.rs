//! Parameter policy of the composite effects: which parameters are
//! degenerate and must be rejected before any samples are touched, and
//! the source-index rule shared by the delay-based effects.
//!
//! The effects themselves (reverb, echo, delay, soft clipping, phase
//! shift, flanging) mix single-precision samples in the unverified
//! shell; the admission decisions and index arithmetic they apply are
//! proved here.

use vstd::prelude::*;

verus! {

/// The error taxonomy of the core: degenerate parameters and paired
/// buffers whose lengths do not agree. Numeric degeneracy inside an
/// algorithm is a defect to fix, not an error value, so no variant
/// stands for it.
#[derive(Clone, Copy, PartialEq, Eq, Debug)]
pub enum DspError {
    /// A zero length or delay where a positive one is required, or a
    /// parameter outside its documented range.
    InvalidParameter,
    /// Paired buffers whose lengths must agree but do not.
    LengthMismatch,
}

impl DspError {
    /// A short description of the error.
    pub fn message(&self) -> &'static str {
        match self {
            DspError::InvalidParameter => "invalid parameter",
            DspError::LengthMismatch => "length mismatch",
        }
    }
}

/// Admission rule of the delay-based effects (delay, echo, reverb taps,
/// flange): the buffer must hold at least one sample and the delay must
/// move it by at least one sample. Exactly the degenerate inputs are
/// rejected, and always with the parameter error.
pub fn check_delay_params(len: usize, offset: usize) -> (r: Result<(), DspError>)
    ensures
        r == Ok::<(), DspError>(()) <==> (len >= 1 && offset >= 1),
        !(len >= 1 && offset >= 1) ==> r == Err::<(), DspError>(DspError::InvalidParameter),
{
    if len >= 1 && offset >= 1 {
        Ok(())
    } else {
        Err(DspError::InvalidParameter)
    }
}

/// Admission rule of the controlled envelope: the control signal must cover
/// the carrier sample for sample. Any other pairing is rejected as a
/// length mismatch rather than padded or truncated.
pub fn check_control_len(carrier_len: usize, control_len: usize) -> (r: Result<(), DspError>)
    ensures
        r == Ok::<(), DspError>(()) <==> carrier_len == control_len,
        carrier_len != control_len ==> r == Err::<(), DspError>(DspError::LengthMismatch),
{
    if carrier_len == control_len {
        Ok(())
    } else {
        Err(DspError::LengthMismatch)
    }
}

/// How a constant phase shift treats one bin of a spectrum.
#[derive(Clone, Copy, PartialEq, Eq, Debug)]
pub enum BinKind {
    /// The zero-frequency bin: real, left untouched.
    Zero,
    /// The highest resolvable bin of an even-length spectrum: real,
    /// left untouched.
    Nyquist,
    /// A positive-frequency bin: turned by the shift angle.
    Positive,
    /// A negative-frequency bin: turned by the opposite angle, which
    /// keeps the rotated spectrum conjugate-symmetric and the
    /// time-domain result real.
    Negative,
}

/// The class of bin `k` in an `n`-point spectrum.
pub open spec fn bin_kind_spec(k: int, n: int) -> BinKind {
    if k == 0 {
        BinKind::Zero
    } else if 2 * k == n {
        BinKind::Nyquist
    } else if 2 * k < n {
        BinKind::Positive
    } else {
        BinKind::Negative
    }
}

/// Classifies spectrum bin `k` of an `n`-point transform for the phase
/// shift: bins that must stay real are left alone, positive frequencies
/// turn one way, negative ones the other.
pub fn spectral_bin_kind(k: usize, n: usize) -> (r: BinKind)
    requires
        k < n,
    ensures
        r == bin_kind_spec(k as int, n as int),
{
    if k == 0 {
        BinKind::Zero
    } else if n % 2 == 0 && k == n / 2 {
        BinKind::Nyquist
    } else if k <= n / 2 {
        BinKind::Positive
    } else {
        BinKind::Negative
    }
}

/// Where a copy delayed by `offset` samples reads from: sample `i` of
/// the delayed copy is sample `i - offset` of the source once the delay
/// has elapsed, and silence (no source sample) before that.
pub fn delay_src_index(i: usize, offset: usize) -> (r: Option<usize>)
    ensures
        i >= offset ==> r == Some((i - offset) as usize),
        i < offset ==> r == None::<usize>,
{
    if i >= offset {
        Some(i - offset)
    } else {
        None
    }
}

} // verus!
