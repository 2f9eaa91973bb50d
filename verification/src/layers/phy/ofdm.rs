//! OFDM symbol timing: cyclic prefix lengths scaled from the 2048-point
//! reference, and the sample layout of a slot.
use vstd::prelude::*;
use crate::layers::phy::CyclicPrefix;
use crate::layers::phy::frame_structure::cp_samples;

verus! {

/// `ceil(fft_size * num / 2048)`.
pub open spec fn scaled_ceil(fft_size: nat, num: nat) -> nat {
    ((fft_size * num + 2047) / 2048) as nat
}

/// CP lengths of the symbols of a slot, rounded up: with a normal CP the
/// first symbol has 160/2048 of the FFT size and the other 13 have
/// 144/2048; with an extended CP all 12 have 512/2048.
pub open spec fn cp_lengths_spec(fft_size: nat, cp_type: CyclicPrefix) -> Seq<nat> {
    match cp_type {
        CyclicPrefix::Normal => Seq::new(
            14,
            |i: int|
                if i == 0 {
                    scaled_ceil(fft_size, 160)
                } else {
                    scaled_ceil(fft_size, 144)
                },
        ),
        CyclicPrefix::Extended => Seq::new(12, |i: int| scaled_ceil(fft_size, 512)),
    }
}

/// `ceil(fft_size * num / 2048)` in machine arithmetic.
fn scaled_ceil_exec(fft_size: usize, num: usize) -> (r: usize)
    requires
        num <= 512,
        fft_size * 512 + 2047 <= usize::MAX,
    ensures
        r == scaled_ceil(fft_size as nat, num as nat),
{
    assert(fft_size * num <= fft_size * 512) by (nonlinear_arith)
        requires
            num <= 512,
    ;
    (fft_size * num + 2047) / 2048
}

/// The CP length of each symbol of a slot for an FFT size and CP type
/// (rounded up, so that a slot holds whole samples).
pub fn calculate_cp_lengths(fft_size: usize, cp_type: CyclicPrefix) -> (r: Vec<usize>)
    requires
        fft_size * 512 + 2047 <= usize::MAX,
    ensures
        r@.len() == cp_lengths_spec(fft_size as nat, cp_type).len(),
        forall|i: int| 0 <= i < r@.len() ==> r@[i] == cp_lengths_spec(fft_size as nat, cp_type)[i],
{
    match cp_type {
        CyclicPrefix::Normal => {
            let base_cp = scaled_ceil_exec(fft_size, 144);
            let extended_cp = scaled_ceil_exec(fft_size, 160);
            let mut lengths: Vec<usize> = Vec::new();
            lengths.push(extended_cp);
            let mut k: usize = 1;
            while k < 14
                invariant
                    1 <= k <= 14,
                    lengths@.len() == k,
                    lengths@[0] == extended_cp,
                    forall|i: int| 1 <= i < k ==> lengths@[i] == base_cp,
                decreases 14 - k,
            {
                lengths.push(base_cp);
                k = k + 1;
            }
            lengths
        },
        CyclicPrefix::Extended => {
            let cp_len = scaled_ceil_exec(fft_size, 512);
            let mut lengths: Vec<usize> = Vec::new();
            let mut k: usize = 0;
            while k < 12
                invariant
                    k <= 12,
                    lengths@.len() == k,
                    forall|i: int| 0 <= i < k ==> lengths@[i] == cp_len,
                decreases 12 - k,
            {
                lengths.push(cp_len);
                k = k + 1;
            }
            lengths
        },
    }
}

/// Where a symbol lies within its slot.
#[derive(Debug, Clone, Copy, PartialEq, Eq, Structural)]
pub struct OfdmSymbolTiming {
    /// Symbol start sample
    pub start_sample: usize,
    /// Symbol duration in samples (including CP)
    pub duration: usize,
    /// CP length in samples
    pub cp_length: usize,
}

/// Samples before symbol `k` of a slot: the sum of `fft_size + cp` over
/// the symbols before it.
pub open spec fn slot_offset(fft_size: nat, cps: Seq<nat>, k: nat) -> nat
    decreases k,
{
    if k == 0 {
        0
    } else {
        slot_offset(fft_size, cps, (k - 1) as nat) + fft_size + cps[k - 1]
    }
}

proof fn lemma_slot_offset_bound(fft_size: nat, cps: Seq<nat>, k: nat, bound: nat)
    requires
        forall|i: int| 0 <= i < cps.len() ==> cps[i] <= bound,
        k <= cps.len(),
    ensures
        slot_offset(fft_size, cps, k) <= k * (fft_size + bound),
    decreases k,
{
    if k > 0 {
        lemma_slot_offset_bound(fft_size, cps, (k - 1) as nat, bound);
        assert(k * (fft_size + bound) == (k - 1) * (fft_size + bound) + fft_size + bound) by (nonlinear_arith);
    }
}

/// The start, duration and CP length of each symbol of a slot.
pub fn calculate_slot_timing(fft_size: usize, cp_type: CyclicPrefix) -> (r: Vec<OfdmSymbolTiming>)
    requires
        fft_size * 512 + 2047 <= usize::MAX,
    ensures
        ({
            let cps = cp_lengths_spec(fft_size as nat, cp_type);
            &&& r@.len() == cps.len()
            &&& forall|k: int|
                0 <= k < r@.len() ==> {
                    &&& #[trigger] r@[k].cp_length == cps[k]
                    &&& r@[k].duration == fft_size + cps[k]
                    &&& r@[k].start_sample == slot_offset(fft_size as nat, cps, k as nat)
                }
        }),
{
    let cp_lengths = calculate_cp_lengths(fft_size, cp_type);
    let ghost cps = cp_lengths_spec(fft_size as nat, cp_type);
    let mut timings: Vec<OfdmSymbolTiming> = Vec::new();
    let mut start: usize = 0;
    let mut k: usize = 0;
    proof {
        assert(forall|i: int| 0 <= i < cps.len() ==> cps[i] <= fft_size as nat) by {
            assert forall|i: int| 0 <= i < cps.len() implies cps[i] <= fft_size as nat by {
                assert((fft_size * 512 + 2047) / 2048 <= fft_size) by (nonlinear_arith);
                assert((fft_size * 160 + 2047) / 2048 <= fft_size) by (nonlinear_arith);
                assert((fft_size * 144 + 2047) / 2048 <= fft_size) by (nonlinear_arith);
            }
        }
    }
    while k < cp_lengths.len()
        invariant
            fft_size * 512 + 2047 <= usize::MAX,
            cp_lengths@.len() == cps.len(),
            cps.len() <= 14,
            forall|i: int| 0 <= i < cps.len() ==> cps[i] <= fft_size as nat,
            forall|i: int| 0 <= i < cp_lengths@.len() ==> cp_lengths@[i] == cps[i],
            k <= cp_lengths@.len(),
            timings@.len() == k,
            start == slot_offset(fft_size as nat, cps, k as nat),
            forall|j: int|
                0 <= j < k ==> {
                    &&& #[trigger] timings@[j].cp_length == cps[j]
                    &&& timings@[j].duration == fft_size + cps[j]
                    &&& timings@[j].start_sample == slot_offset(fft_size as nat, cps, j as nat)
                },
        decreases cp_lengths@.len() - k,
    {
        let cp_len = cp_lengths[k];
        proof {
            lemma_slot_offset_bound(fft_size as nat, cps, (k + 1) as nat, fft_size as nat);
            assert((k + 1) * (fft_size + fft_size) <= fft_size * 512) by (nonlinear_arith)
                requires
                    k + 1 <= 14,
            ;
        }
        let duration = fft_size + cp_len;
        timings.push(OfdmSymbolTiming { start_sample: start, duration, cp_length: cp_len });
        start = start + duration;
        k = k + 1;
    }
    timings
}


/// The samples of a symbol that the frame structure counts
/// (`FrameStructure::samples_per_symbol`: FFT size plus `cp_samples`) are
/// the FFT size plus that symbol's entry of the CP length table.
pub proof fn lemma_symbol_samples_match_cp_table(fft_size: nat, cp_type: CyclicPrefix, symbol_in_slot: u8)
    requires
        symbol_in_slot < cp_lengths_spec(fft_size, cp_type).len(),
    ensures
        fft_size + cp_samples(cp_type, fft_size, symbol_in_slot) == fft_size + cp_lengths_spec(
            fft_size,
            cp_type,
        )[symbol_in_slot as int],
{
}

} // verus!
