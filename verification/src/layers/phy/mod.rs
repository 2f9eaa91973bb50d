//! Physical layer: numerology, frame timing, sequences and the bit-level
//! channel processing chains.
use vstd::prelude::*;
use crate::common::types::{Bandwidth, SubcarrierSpacing, bandwidth_mhz, scs_khz};
use crate::layers::LayerError;
use crate::common::text::{
    bandwidth_name, bandwidth_name_spec, decimal, push_decimal, push_str, scs_name, scs_name_spec,
};

pub mod dmrs;
pub mod flexran_adapter;
pub mod downlink;
pub mod frame_structure;
pub mod ldpc;
pub mod ofdm;
pub mod pbch;
pub mod pdcch;
pub mod pdsch;
pub mod polar;
pub mod prach;
pub mod pss_sss;
pub mod resampler;
pub mod resource_grid;

verus! {

/// Cyclic prefix type.
#[derive(Debug, Clone, Copy, PartialEq, Eq, Structural)]
pub enum CyclicPrefix {
    /// Normal cyclic prefix (14 symbols per slot)
    Normal,
    /// Extended cyclic prefix (12 symbols per slot)
    Extended,
}

/// TDD slot pattern: downlink slots, then special slots, then uplink slots.
#[derive(Debug, Clone, Copy, PartialEq, Eq, Structural)]
pub struct TddPattern {
    /// Number of downlink slots
    pub dl_slots: u8,
    /// Number of uplink slots
    pub ul_slots: u8,
    /// Number of special slots
    pub special_slots: u8,
}

/// Duplex mode of the carrier.
#[derive(Debug, Clone, Copy, PartialEq, Eq, Structural)]
pub enum DuplexMode {
    /// Frequency division duplex
    Fdd,
    /// Time division duplex with its slot pattern
    Tdd { pattern: TddPattern },
}

/// PHY timing counters reported to the upper layers.
#[derive(Debug, Clone, Copy, PartialEq, Eq, Structural)]
pub struct PhyStats {
    /// Current frame number
    pub frame_number: u32,
    /// Current slot number
    pub slot_number: u8,
    /// Current symbol number
    pub symbol_number: u8,
    /// Samples produced so far
    pub sample_count: u64,
}

/// How far `p` is below `n`.
pub open spec fn shortfall(p: nat, n: nat) -> nat {
    if p >= n {
        0
    } else {
        (n - p) as nat
    }
}

/// Doubling `p` (a power of two) until it reaches `n`.
pub open spec fn pow2_ceil_from(p: nat, n: nat) -> nat
    decreases shortfall(p, n),
{
    if p == 0 || p >= n {
        p
    } else {
        pow2_ceil_from(2 * p, n)
    }
}

/// The smallest power of two at or above `n` (1 for n <= 1).
pub open spec fn pow2_ceil(n: nat) -> nat {
    pow2_ceil_from(1, n)
}

/// The FFT size for a bandwidth and spacing: the power of two at or above
/// bandwidth / spacing, when it is one of the supported sizes.
pub open spec fn fft_size_spec(bandwidth: Bandwidth, scs: SubcarrierSpacing) -> nat {
    pow2_ceil((bandwidth_mhz(bandwidth) as int * 1000 / scs_khz(scs) as int) as nat)
}

/// FFT sizes the OFDM stages support.
pub open spec fn supported_fft_size(n: nat) -> bool {
    n == 256 || n == 512 || n == 1024 || n == 2048 || n == 4096
}

/// The message refusing an FFT size outside 256..4096: the size, and the
/// bandwidth and spacing by their variant names.
pub open spec fn invalid_fft_text(fft_size: nat, bandwidth: Bandwidth, scs: SubcarrierSpacing) -> Seq<char> {
    "Invalid FFT size "@ + decimal(fft_size) + " for bandwidth "@ + bandwidth_name_spec(bandwidth)
        + " and SCS "@ + scs_name_spec(scs)
}

/// The message refusing an FFT size outside 256..4096.
fn invalid_fft_message(fft_size: usize, bandwidth: Bandwidth, scs: SubcarrierSpacing) -> (m: String)
    ensures
        m@ == invalid_fft_text(fft_size as nat, bandwidth, scs),
{
    let mut m = String::new();
    push_str(&mut m, "Invalid FFT size ");
    push_decimal(&mut m, fft_size as u64);
    push_str(&mut m, " for bandwidth ");
    push_str(&mut m, bandwidth_name(bandwidth));
    push_str(&mut m, " and SCS ");
    push_str(&mut m, scs_name(scs));
    assert(m@ =~= invalid_fft_text(fft_size as nat, bandwidth, scs));
    m
}

/// Rounds up to a power of two by doubling.
fn pow2_ceil_exec(n: u32) -> (r: u32)
    requires
        n <= 0x4000_0000,
    ensures
        r == pow2_ceil(n as nat),
{
    let mut p: u32 = 1;
    while p < n
        invariant
            1 <= p,
            p < 2 * n || p == 1,
            n <= 0x4000_0000,
            pow2_ceil_from(p as nat, n as nat) == pow2_ceil(n as nat),
        decreases shortfall(p as nat, n as nat),
    {
        p = p * 2;
    }
    p
}

/// Chooses the FFT size for a bandwidth and subcarrier spacing.
pub fn calculate_fft_size(bandwidth: &Bandwidth, scs: &SubcarrierSpacing) -> (r: Result<usize, LayerError>)
    ensures
        supported_fft_size(fft_size_spec(*bandwidth, *scs)) ==> r == Ok::<usize, LayerError>(
            fft_size_spec(*bandwidth, *scs) as usize,
        ),
        !supported_fft_size(fft_size_spec(*bandwidth, *scs)) ==> r is Err && r->Err_0 is InvalidConfiguration
            && r->Err_0->InvalidConfiguration_0@ == invalid_fft_text(
            fft_size_spec(*bandwidth, *scs),
            *bandwidth,
            *scs,
        ),
{
    let scs_k = scs.khz();
    let bw_mhz = bandwidth.mhz();
    let min_fft = (bw_mhz * 1000) / scs_k;
    let fft_size = pow2_ceil_exec(min_fft) as usize;
    if fft_size == 256 || fft_size == 512 || fft_size == 1024 || fft_size == 2048 || fft_size == 4096 {
        Ok(fft_size)
    } else {
        Err(LayerError::InvalidConfiguration(invalid_fft_message(fft_size, *bandwidth, *scs)))
    }
}

/// Transmission bandwidth in resource blocks for a channel bandwidth, as
/// the modulator is configured; `None` where the combination is refused
/// (60, 80 and 100 MHz need 30 or 60 kHz SCS).
pub open spec fn bandwidth_rbs_spec(bandwidth: Bandwidth, scs: SubcarrierSpacing) -> Option<u32> {
    match bandwidth {
        Bandwidth::Bw5 => Some(25),
        Bandwidth::Bw10 => Some(52),
        Bandwidth::Bw15 => Some(79),
        Bandwidth::Bw20 => Some(106),
        Bandwidth::Bw25 => Some(133),
        Bandwidth::Bw30 => Some(160),
        Bandwidth::Bw40 => Some(216),
        Bandwidth::Bw50 => Some(270),
        Bandwidth::Bw60 => match scs {
            SubcarrierSpacing::Scs30 => Some(162),
            SubcarrierSpacing::Scs60 => Some(81),
            _ => None,
        },
        Bandwidth::Bw80 => match scs {
            SubcarrierSpacing::Scs30 => Some(217),
            SubcarrierSpacing::Scs60 => Some(108),
            _ => None,
        },
        Bandwidth::Bw100 => match scs {
            SubcarrierSpacing::Scs30 => Some(273),
            SubcarrierSpacing::Scs60 => Some(135),
            _ => None,
        },
    }
}

/// The message refusing a bandwidth and SCS pair that `bandwidth_rbs_spec`
/// has no RB count for.
pub open spec fn bandwidth_rbs_error(bandwidth: Bandwidth, scs: SubcarrierSpacing) -> Seq<char> {
    match bandwidth {
        Bandwidth::Bw60 => if scs == SubcarrierSpacing::Scs15 {
            "60 MHz not supported with 15 kHz SCS"@
        } else {
            "Invalid SCS for 60 MHz"@
        },
        Bandwidth::Bw80 => if scs == SubcarrierSpacing::Scs15 {
            "80 MHz not supported with 15 kHz SCS"@
        } else {
            "Invalid SCS for 80 MHz"@
        },
        _ => if scs == SubcarrierSpacing::Scs15 {
            "100 MHz not supported with 15 kHz SCS"@
        } else {
            "Invalid SCS for 100 MHz"@
        },
    }
}

/// The number of resource blocks the modulator is configured with for a
/// bandwidth and SCS; an `InvalidConfiguration` error for 60, 80 or
/// 100 MHz with 15, 120 or 240 kHz SCS.
pub fn bandwidth_rbs(bandwidth: Bandwidth, scs: SubcarrierSpacing) -> (r: Result<u32, LayerError>)
    ensures
        bandwidth_rbs_spec(bandwidth, scs) is Some ==> r == Ok::<u32, LayerError>(
            bandwidth_rbs_spec(bandwidth, scs)->0,
        ),
        bandwidth_rbs_spec(bandwidth, scs) is None ==> r is Err && r->Err_0 is InvalidConfiguration
            && r->Err_0->InvalidConfiguration_0@ == bandwidth_rbs_error(bandwidth, scs),
{
    match bandwidth {
        Bandwidth::Bw5 => Ok(25),
        Bandwidth::Bw10 => Ok(52),
        Bandwidth::Bw15 => Ok(79),
        Bandwidth::Bw20 => Ok(106),
        Bandwidth::Bw25 => Ok(133),
        Bandwidth::Bw30 => Ok(160),
        Bandwidth::Bw40 => Ok(216),
        Bandwidth::Bw50 => Ok(270),
        Bandwidth::Bw60 => match scs {
            SubcarrierSpacing::Scs15 => Err(
                LayerError::InvalidConfiguration("60 MHz not supported with 15 kHz SCS".to_owned()),
            ),
            SubcarrierSpacing::Scs30 => Ok(162),
            SubcarrierSpacing::Scs60 => Ok(81),
            _ => Err(LayerError::InvalidConfiguration("Invalid SCS for 60 MHz".to_owned())),
        },
        Bandwidth::Bw80 => match scs {
            SubcarrierSpacing::Scs15 => Err(
                LayerError::InvalidConfiguration("80 MHz not supported with 15 kHz SCS".to_owned()),
            ),
            SubcarrierSpacing::Scs30 => Ok(217),
            SubcarrierSpacing::Scs60 => Ok(108),
            _ => Err(LayerError::InvalidConfiguration("Invalid SCS for 80 MHz".to_owned())),
        },
        Bandwidth::Bw100 => match scs {
            SubcarrierSpacing::Scs15 => Err(
                LayerError::InvalidConfiguration("100 MHz not supported with 15 kHz SCS".to_owned()),
            ),
            SubcarrierSpacing::Scs30 => Ok(273),
            SubcarrierSpacing::Scs60 => Ok(135),
            _ => Err(LayerError::InvalidConfiguration("Invalid SCS for 100 MHz".to_owned())),
        },
    }
}

} // verus!
