use vstd::prelude::*;

use crate::errors::FftError;

verus! {

/// Number of complex bins in the half-spectrum of a real signal of
/// length `n`: floor(n/2) + 1. By conjugate symmetry the remaining bins
/// of the full spectrum carry no independent information.
pub open spec fn spectrum_entries(n: nat) -> nat {
    n / 2 + 1
}

/// `packed` is the packed (wire) form of the complex bins `pairs`:
/// twice as long, with the real part of bin `i` at position `2 * i` and
/// its imaginary part at position `2 * i + 1`. Values are carried as the
/// bit patterns of the samples.
pub open spec fn is_packed_of(packed: Seq<u32>, pairs: Seq<(u32, u32)>) -> bool {
    &&& packed.len() == 2 * pairs.len()
    &&& forall|i: int|
        0 <= i < pairs.len() ==> #[trigger] pairs[i] == (packed[2 * i], packed[2 * i + 1])
}

/// Flatten a half-spectrum of (re, im) bins into its packed wire form.
pub fn pack_spectrum(pairs: &Vec<(u32, u32)>) -> (packed: Vec<u32>)
    ensures
        is_packed_of(packed@, pairs@),
{
    let mut packed: Vec<u32> = Vec::new();
    let mut i: usize = 0;
    while i < pairs.len()
        invariant
            i <= pairs@.len(),
            packed@.len() == 2 * i,
            forall|j: int|
                0 <= j < i ==> #[trigger] pairs@[j] == (packed@[2 * j], packed@[2 * j + 1]),
        decreases pairs@.len() - i,
    {
        let (re, im) = pairs[i];
        packed.push(re);
        packed.push(im);
        i = i + 1;
    }
    packed
}

/// Rebuild the half-spectrum bins from a packed wire form.
///
/// The caller validates the length first (`inverse_output_len` reports
/// `InvalidLength` for an odd packed length).
pub fn unpack_spectrum(packed: &Vec<u32>) -> (pairs: Vec<(u32, u32)>)
    requires
        packed@.len() % 2 == 0,
    ensures
        is_packed_of(packed@, pairs@),
{
    let n = packed.len();
    let entries = n / 2;
    let mut pairs: Vec<(u32, u32)> = Vec::new();
    let mut i: usize = 0;
    while i < entries
        invariant
            n == packed@.len(),
            entries == n / 2,
            packed@.len() % 2 == 0,
            i <= entries,
            pairs@.len() == i,
            forall|j: int|
                0 <= j < i ==> #[trigger] pairs@[j] == (packed@[2 * j], packed@[2 * j + 1]),
        decreases entries - i,
    {
        let re = packed[2 * i];
        let im = packed[2 * i + 1];
        pairs.push((re, im));
        i = i + 1;
    }
    pairs
}

/// Packing is lossless towards the bins: two bin sequences with the same
/// packed form are equal.
pub proof fn lemma_unpack_unique(packed: Seq<u32>, a: Seq<(u32, u32)>, b: Seq<(u32, u32)>)
    requires
        is_packed_of(packed, a),
        is_packed_of(packed, b),
    ensures
        a == b,
{
    assert(a.len() == b.len());
    assert forall|i: int| 0 <= i < a.len() implies a[i] == b[i] by {
        assert(a[i] == (packed[2 * i], packed[2 * i + 1]));
        assert(b[i] == (packed[2 * i], packed[2 * i + 1]));
    }
    assert(a =~= b);
}

/// Packing is lossless towards the wire: two packed forms of the same
/// bins are equal. Together with `lemma_unpack_unique` this says that
/// packing and unpacking are inverse to each other.
pub proof fn lemma_pack_unique(p1: Seq<u32>, p2: Seq<u32>, pairs: Seq<(u32, u32)>)
    requires
        is_packed_of(p1, pairs),
        is_packed_of(p2, pairs),
    ensures
        p1 == p2,
{
    assert(p1.len() == p2.len());
    assert forall|k: int| 0 <= k < p1.len() implies p1[k] == p2[k] by {
        let i: int = k / 2;
        assert(pairs[i] == (p1[2 * i], p1[2 * i + 1]));
        assert(pairs[i] == (p2[2 * i], p2[2 * i + 1]));
        assert(k == 2 * i || k == 2 * i + 1);
    }
    assert(p1 =~= p2);
}

/// Length law of the forward path: packing the half-spectrum of a real
/// signal of length `n` — one bin per entry, `spectrum_entries(n)` of
/// them — yields a wire form of exactly `2 * (n / 2 + 1)` values.
pub proof fn lemma_forward_packed_len(n: nat, pairs: Seq<(u32, u32)>, packed: Seq<u32>)
    requires
        pairs.len() == spectrum_entries(n),
        is_packed_of(packed, pairs),
    ensures
        packed.len() == 2 * (n / 2 + 1),
{
}

/// Time-domain output length of the inverse transform for a packed
/// spectrum of `packed_len` values: with `entries = packed_len / 2`
/// bins, the reconstructed signal has `2 * (entries - 1)` samples.
///
/// Fails with `InvalidLength` when `packed_len` is odd (not a whole
/// number of (re, im) pairs) or holds no bin at all.
pub fn inverse_output_len(packed_len: usize) -> (r: Result<usize, FftError>)
    ensures
        match r {
            Ok(n) => {
                &&& packed_len % 2 == 0
                &&& packed_len >= 2
                &&& n == packed_len - 2
                &&& n as int == 2 * (packed_len as int / 2 - 1)
                &&& n % 2 == 0
            },
            Err(e) => {
                &&& packed_len % 2 != 0 || packed_len < 2
                &&& e == FftError::InvalidLength
            },
        },
{
    if packed_len % 2 != 0 || packed_len < 2 {
        Err(FftError::InvalidLength)
    } else {
        Ok(packed_len - 2)
    }
}

} // verus!
