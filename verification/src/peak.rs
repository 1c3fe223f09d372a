use vstd::prelude::*;

use crate::errors::FftError;

verus! {

/// `k` is the index the peak search returns for `mags`: a maximal entry
/// that no earlier entry equals — the first (lowest-index) maximum.
pub open spec fn is_first_peak(mags: Seq<u32>, k: int) -> bool {
    &&& 0 <= k < mags.len()
    &&& forall|j: int| 0 <= j < mags.len() ==> #[trigger] mags[j] <= mags[k]
    &&& forall|j: int| 0 <= j < k ==> #[trigger] mags[j] < mags[k]
}

/// Index of the dominant bin of a magnitude vector.
///
/// Magnitudes are given as the bit patterns of their IEEE-754 single
/// encodings; the encodings of non-negative values order as unsigned
/// integers exactly as the values themselves order, so the scan compares
/// the bit patterns directly. Among equal maximal entries the first
/// (lowest-index) one wins. An empty vector has no bins and is rejected
/// with `EmptySpectrum`; a one-entry vector yields 0.
pub fn peak_bin(mags: &Vec<u32>) -> (r: Result<usize, FftError>)
    ensures
        match r {
            Ok(k) => is_first_peak(mags@, k as int),
            Err(e) => mags@.len() == 0 && e == FftError::EmptySpectrum,
        },
{
    if mags.len() == 0 {
        return Err(FftError::EmptySpectrum);
    }
    let mut best: usize = 0;
    let mut i: usize = 1;
    while i < mags.len()
        invariant
            1 <= i <= mags@.len(),
            best < i,
            forall|j: int| 0 <= j < i ==> #[trigger] mags@[j] <= mags@[best as int],
            forall|j: int| 0 <= j < best ==> #[trigger] mags@[j] < mags@[best as int],
        decreases mags@.len() - i,
    {
        if mags[i] > mags[best] {
            best = i;
        }
        i = i + 1;
    }
    Ok(best)
}

/// Peak tie-break law: when the entries at `i < j` are two equal maximal
/// entries and no entry before `i` is maximal, the peak index is exactly
/// `i` — the later equal maximum at `j` does not displace it.
pub proof fn lemma_peak_tie_break(mags: Seq<u32>, k: usize, i: int, j: int)
    requires
        is_first_peak(mags, k as int),
        0 <= i < j < mags.len(),
        mags[i] == mags[j],
        forall|l: int| 0 <= l < mags.len() ==> #[trigger] mags[l] <= mags[i],
        forall|l: int| 0 <= l < i ==> #[trigger] mags[l] < mags[i],
    ensures
        k == i,
{
    assert(mags[k as int] <= mags[i]);
    assert(mags[i] <= mags[k as int]);
    if (k as int) < i {
        assert(mags[k as int] < mags[i]);
    }
    if (k as int) > i {
        assert(mags[i] < mags[k as int]);
    }
}

} // verus!
