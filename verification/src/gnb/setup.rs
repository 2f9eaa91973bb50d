//! Reading the cell parameters of the configuration: channel bandwidth
//! and subcarrier spacing codes, the carrier frequency of an NR-ARFCN, and
//! the BCD PLMN identity used towards the core network.
use vstd::prelude::*;
use vstd::string::StringSliceAdditionalSpecFns;
use crate::common::types::{Bandwidth, SubcarrierSpacing};
use crate::gnb::config::{PlmnError, is_digit};

verus! {

/// The channel bandwidth of a value in MHz, if it is one of the NR ones.
pub open spec fn bandwidth_of_mhz(mhz: u32) -> Option<Bandwidth> {
    if mhz == 5 {
        Some(Bandwidth::Bw5)
    } else if mhz == 10 {
        Some(Bandwidth::Bw10)
    } else if mhz == 15 {
        Some(Bandwidth::Bw15)
    } else if mhz == 20 {
        Some(Bandwidth::Bw20)
    } else if mhz == 25 {
        Some(Bandwidth::Bw25)
    } else if mhz == 30 {
        Some(Bandwidth::Bw30)
    } else if mhz == 40 {
        Some(Bandwidth::Bw40)
    } else if mhz == 50 {
        Some(Bandwidth::Bw50)
    } else if mhz == 60 {
        Some(Bandwidth::Bw60)
    } else if mhz == 80 {
        Some(Bandwidth::Bw80)
    } else if mhz == 100 {
        Some(Bandwidth::Bw100)
    } else {
        None
    }
}

/// The channel bandwidth of a configured value in MHz; `None` for a value
/// that is not an NR channel bandwidth.
pub fn bandwidth_from_mhz(mhz: u32) -> (r: Option<Bandwidth>)
    ensures
        r == bandwidth_of_mhz(mhz),
{
    match mhz {
        5 => Some(Bandwidth::Bw5),
        10 => Some(Bandwidth::Bw10),
        15 => Some(Bandwidth::Bw15),
        20 => Some(Bandwidth::Bw20),
        25 => Some(Bandwidth::Bw25),
        30 => Some(Bandwidth::Bw30),
        40 => Some(Bandwidth::Bw40),
        50 => Some(Bandwidth::Bw50),
        60 => Some(Bandwidth::Bw60),
        80 => Some(Bandwidth::Bw80),
        100 => Some(Bandwidth::Bw100),
        _ => None,
    }
}

/// The subcarrier spacing of a value in kHz, if it is one of the NR ones.
pub open spec fn scs_of_khz(khz: u32) -> Option<SubcarrierSpacing> {
    if khz == 15 {
        Some(SubcarrierSpacing::Scs15)
    } else if khz == 30 {
        Some(SubcarrierSpacing::Scs30)
    } else if khz == 60 {
        Some(SubcarrierSpacing::Scs60)
    } else if khz == 120 {
        Some(SubcarrierSpacing::Scs120)
    } else if khz == 240 {
        Some(SubcarrierSpacing::Scs240)
    } else {
        None
    }
}

/// The subcarrier spacing of a configured value in kHz; `None` for a value
/// that is not an NR numerology.
pub fn scs_from_khz(khz: u32) -> (r: Option<SubcarrierSpacing>)
    ensures
        r == scs_of_khz(khz),
{
    match khz {
        15 => Some(SubcarrierSpacing::Scs15),
        30 => Some(SubcarrierSpacing::Scs30),
        60 => Some(SubcarrierSpacing::Scs60),
        120 => Some(SubcarrierSpacing::Scs120),
        240 => Some(SubcarrierSpacing::Scs240),
        _ => None,
    }
}

/// Why an NR-ARFCN was refused.
#[derive(Debug, Clone, Copy, PartialEq, Eq, Structural)]
pub enum ArfcnError {
    /// The ARFCN lies outside the band's downlink range
    InvalidArfcn,
    /// The band is not supported
    UnsupportedBand,
}

/// Carrier frequency in Hz of a downlink NR-ARFCN of band n3:
/// 1805 MHz + 5 kHz (N - 361000), for N in 361000..=376000.
pub open spec fn arfcn_frequency_hz(arfcn: u32, band: u16) -> Result<u64, ArfcnError> {
    if band != 3 {
        Err(ArfcnError::UnsupportedBand)
    } else if arfcn < 361000 || arfcn > 376000 {
        Err(ArfcnError::InvalidArfcn)
    } else {
        Ok((1_805_000_000 + 5000 * (arfcn - 361000)) as u64)
    }
}

/// The carrier frequency (Hz) of a downlink NR-ARFCN; only band n3 is
/// supported.
pub fn frequency_from_arfcn_hz(arfcn: u32, band: u16) -> (r: Result<u64, ArfcnError>)
    ensures
        r == arfcn_frequency_hz(arfcn, band),
{
    if band != 3 {
        return Err(ArfcnError::UnsupportedBand);
    }
    if arfcn < 361000 || arfcn > 376000 {
        return Err(ArfcnError::InvalidArfcn);
    }
    Ok(1_805_000_000u64 + 5000u64 * ((arfcn - 361000) as u64))
}

/// The BCD PLMN identity of a 5- or 6-digit PLMN string as the gNB sends
/// it to the core network: octet 0 holds MCC digits 2 and 1, octet 1 MNC
/// digit 1 and MCC digit 3, octet 2 a filler (two-digit MNC) or MNC digit 3
/// above MNC digit 2.
pub open spec fn plmn_bcd_spec(b: Seq<u8>) -> Seq<u8> {
    let d = |i: int| (b[i] - 48) as u8;
    seq![
        ((d(1) << 4u8) | d(0)) as u8,
        ((d(3) << 4u8) | d(2)) as u8,
        (if b.len() == 5 { 0xF0u8 | d(4) } else { ((d(5) << 4u8) | d(4)) as u8 }),
    ]
}

/// Encodes a PLMN string as the gNB's BCD identity; `InvalidFormat` unless
/// it is 5 or 6 bytes long.
pub fn plmn_bcd(plmn: &str) -> (r: Result<[u8; 3], PlmnError>)
    requires
        plmn.spec_bytes().len() == 5 || plmn.spec_bytes().len() == 6 ==> forall|i: int|
            0 <= i < plmn.spec_bytes().len() ==> is_digit(#[trigger] plmn.spec_bytes()[i]),
    ensures
        (plmn.spec_bytes().len() == 5 || plmn.spec_bytes().len() == 6) ==> r is Ok && r->Ok_0@ == plmn_bcd_spec(
            plmn.spec_bytes(),
        ),
        !(plmn.spec_bytes().len() == 5 || plmn.spec_bytes().len() == 6) ==> r == Err::<[u8; 3], PlmnError>(
            PlmnError::InvalidFormat,
        ),
{
    let b = plmn.as_bytes();
    if b.len() != 5 && b.len() != 6 {
        return Err(PlmnError::InvalidFormat);
    }
    assert(is_digit(b@[0]) && is_digit(b@[1]) && is_digit(b@[2]) && is_digit(b@[3]) && is_digit(b@[4]));
    let d0 = b[0] - 48;
    let d1 = b[1] - 48;
    let d2 = b[2] - 48;
    let d3 = b[3] - 48;
    let d4 = b[4] - 48;
    let last = if b.len() == 5 {
        0xF0u8 | d4
    } else {
        assert(is_digit(b@[5]));
        let d5 = b[5] - 48;
        (d5 << 4u8) | d4
    };
    let out = [(d1 << 4u8) | d0, (d3 << 4u8) | d2, last];
    assert(out@ =~= plmn_bcd_spec(b@));
    Ok(out)
}

} // verus!
