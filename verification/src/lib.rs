//! A real-input spectral analysis core.
//!
//! The library plans forward (real-to-complex) and inverse
//! (complex-to-real) transforms, caches the plans by length and
//! direction, packs half-spectra into their flat wire form and back, and
//! searches a magnitude vector for its dominant bin. Sample values cross
//! the boundary as the bit patterns of their IEEE-754 encodings, so that
//! every length rule, packing rule and the peak search itself are
//! verified; the floating-point transform kernel runs outside, against
//! the buffer sizes this library fixes.

pub mod errors;
pub mod peak;
pub mod plan;
pub mod spectrum;

use vstd::prelude::*;

verus! {

/// The engine's greeting, for a host checking that the library is wired up.
pub fn greet() -> (r: String)
    ensures
        r@ == "Hello, sound!"@,
{
    "Hello, sound!".to_owned()
}

} // verus!
