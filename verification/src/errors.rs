use vstd::prelude::*;

verus! {

/// The error kinds of the spectral engine.
///
/// Every validation failure is detected before any numeric work starts,
/// so an operation either returns a complete result or one of these.
#[derive(Clone, Copy, Debug, PartialEq, Eq, Structural)]
pub enum FftError {
    /// A requested transform or buffer length is structurally invalid:
    /// zero, or odd where an even length is required.
    InvalidLength,
    /// An operation that needs at least one spectral bin was given none.
    EmptySpectrum,
}

} // verus!
