//! Slot and frame timing per subcarrier spacing.
use vstd::prelude::*;

verus! {

/// The subcarrier spacings (kHz) of the NR numerologies 0..=4.
pub open spec fn valid_scs_khz(scs_khz: u16) -> bool {
    scs_khz == 15 || scs_khz == 30 || scs_khz == 60 || scs_khz == 120 || scs_khz == 240
}

/// Slot duration in microseconds: 1 ms at 15 kHz, halving with each
/// doubling of the spacing (62 us, rounded down, at 240 kHz).
pub fn slot_duration_us(scs_khz: u16) -> (r: u32)
    requires
        valid_scs_khz(scs_khz),
    ensures
        r == 15000int / (scs_khz as int),
{
    proof {
        assert(15000int / 15int == 1000 && 15000int / 30int == 500 && 15000int / 60int == 250
            && 15000int / 120int == 125 && 15000int / 240int == 62);
    }
    match scs_khz {
        15 => 1000,
        30 => 500,
        60 => 250,
        120 => 125,
        _ => 62,
    }
}

/// Number of slots in a 10 ms frame.
pub fn slots_per_frame(scs_khz: u16) -> (r: u16)
    requires
        valid_scs_khz(scs_khz),
    ensures
        r == 10 * (scs_khz as int / 15int),
{
    match scs_khz {
        15 => 10,
        30 => 20,
        60 => 40,
        120 => 80,
        _ => 160,
    }
}

} // verus!
