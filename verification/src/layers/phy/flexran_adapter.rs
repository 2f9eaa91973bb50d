//! CP layout used by the accelerated OFDM backend: lengths rounded down,
//! with the long CP at the start of each half slot.
use vstd::prelude::*;
use crate::layers::phy::CyclicPrefix;

verus! {

/// `floor(fft_size * num / 2048)`.
pub open spec fn scaled_floor(fft_size: nat, num: nat) -> nat {
    fft_size * num / 2048
}

/// CP lengths of the symbols of a slot, rounded down: with a normal CP
/// symbols 0 and 7 have 160/2048 of the FFT size and the other 12 have
/// 144/2048; with an extended CP all 12 have 512/2048.
pub open spec fn half_slot_cp_lengths_spec(fft_size: nat, cp_type: CyclicPrefix) -> Seq<nat> {
    match cp_type {
        CyclicPrefix::Normal => Seq::new(
            14,
            |i: int|
                if i == 0 || i == 7 {
                    scaled_floor(fft_size, 160)
                } else {
                    scaled_floor(fft_size, 144)
                },
        ),
        CyclicPrefix::Extended => Seq::new(12, |i: int| scaled_floor(fft_size, 512)),
    }
}

/// The CP length of each symbol of a slot for the accelerated backend.
pub fn calculate_cp_lengths(fft_size: usize, cp_type: CyclicPrefix) -> (r: Vec<usize>)
    requires
        fft_size * 512 <= usize::MAX,
    ensures
        r@.len() == half_slot_cp_lengths_spec(fft_size as nat, cp_type).len(),
        forall|i: int|
            0 <= i < r@.len() ==> r@[i] == half_slot_cp_lengths_spec(fft_size as nat, cp_type)[i],
{
    match cp_type {
        CyclicPrefix::Normal => {
            assert(fft_size * 160 <= fft_size * 512) by (nonlinear_arith);
            assert(fft_size * 144 <= fft_size * 512) by (nonlinear_arith);
            let base_cp = fft_size * 144 / 2048;
            let extended_cp = fft_size * 160 / 2048;
            let mut lengths: Vec<usize> = Vec::new();
            let mut k: usize = 0;
            while k < 14
                invariant
                    k <= 14,
                    lengths@.len() == k,
                    forall|i: int|
                        0 <= i < k ==> lengths@[i] == (if i == 0 || i == 7 {
                            extended_cp
                        } else {
                            base_cp
                        }),
                decreases 14 - k,
            {
                if k == 0 || k == 7 {
                    lengths.push(extended_cp);
                } else {
                    lengths.push(base_cp);
                }
                k = k + 1;
            }
            lengths
        },
        CyclicPrefix::Extended => {
            let cp_len = fft_size * 512 / 2048;
            let mut lengths: Vec<usize> = Vec::new();
            let mut k: usize = 0;
            while k < 12
                invariant
                    k <= 12,
                    lengths@.len() == k,
                    forall|i: int| 0 <= i < k ==> lengths@[i] == cp_len,
                decreases 12 - k,
            {
                lengths.push(cp_len);
                k = k + 1;
            }
            lengths
        },
    }
}

} // verus!
