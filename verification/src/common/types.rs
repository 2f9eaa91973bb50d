//! Fundamental identifiers and radio parameters.
use vstd::prelude::*;

verus! {

/// Radio Network Temporary Identifier (RNTI).
#[derive(Debug, Clone, Copy, PartialEq, Eq, Hash, Structural)]
pub struct Rnti(pub u16);

impl Rnti {
    /// Creates an RNTI holding `value`.
    pub fn new(value: u16) -> (r: Self)
        ensures
            r.0 == value,
    {
        Rnti(value)
    }

    /// The RNTI value.
    pub fn value(&self) -> (v: u16)
        ensures
            v == self.0,
    {
        self.0
    }
}

/// Cell identity.
#[derive(Debug, Clone, Copy, PartialEq, Eq, Hash, Structural)]
pub struct CellId(pub u16);

/// Physical cell identity (0..=1007).
#[derive(Debug, Clone, Copy, PartialEq, Eq, Hash, Structural)]
pub struct Pci(pub u16);

impl Pci {
    /// Largest valid physical cell identity.
    pub const MAX: u16 = 1007;

    /// Creates a PCI when `value` is a valid identity (at most 1007).
    pub fn new(value: u16) -> (r: Option<Self>)
        ensures
            r == (if value <= Pci::MAX { Some(Pci(value)) } else { None::<Pci> }),
    {
        if value <= Pci::MAX {
            Some(Pci(value))
        } else {
            None
        }
    }
}

/// Subcarrier spacing values.
#[derive(Debug, Clone, Copy, PartialEq, Eq, Structural)]
pub enum SubcarrierSpacing {
    /// 15 kHz
    Scs15,
    /// 30 kHz
    Scs30,
    /// 60 kHz
    Scs60,
    /// 120 kHz
    Scs120,
    /// 240 kHz
    Scs240,
}

/// Spacing of `scs` in kHz.
pub open spec fn scs_khz(scs: SubcarrierSpacing) -> u32 {
    match scs {
        SubcarrierSpacing::Scs15 => 15,
        SubcarrierSpacing::Scs30 => 30,
        SubcarrierSpacing::Scs60 => 60,
        SubcarrierSpacing::Scs120 => 120,
        SubcarrierSpacing::Scs240 => 240,
    }
}

impl SubcarrierSpacing {
    /// Spacing in kHz (the numeric value of the variant).
    pub fn khz(&self) -> (k: u32)
        ensures
            k == scs_khz(*self),
    {
        match self {
            SubcarrierSpacing::Scs15 => 15,
            SubcarrierSpacing::Scs30 => 30,
            SubcarrierSpacing::Scs60 => 60,
            SubcarrierSpacing::Scs120 => 120,
            SubcarrierSpacing::Scs240 => 240,
        }
    }
}

/// Channel bandwidth values.
#[derive(Debug, Clone, Copy, PartialEq, Eq, Structural)]
pub enum Bandwidth {
    /// 5 MHz
    Bw5,
    /// 10 MHz
    Bw10,
    /// 15 MHz
    Bw15,
    /// 20 MHz
    Bw20,
    /// 25 MHz
    Bw25,
    /// 30 MHz
    Bw30,
    /// 40 MHz
    Bw40,
    /// 50 MHz
    Bw50,
    /// 60 MHz
    Bw60,
    /// 80 MHz
    Bw80,
    /// 100 MHz
    Bw100,
}

/// Bandwidth of `bw` in MHz.
pub open spec fn bandwidth_mhz(bw: Bandwidth) -> u32 {
    match bw {
        Bandwidth::Bw5 => 5,
        Bandwidth::Bw10 => 10,
        Bandwidth::Bw15 => 15,
        Bandwidth::Bw20 => 20,
        Bandwidth::Bw25 => 25,
        Bandwidth::Bw30 => 30,
        Bandwidth::Bw40 => 40,
        Bandwidth::Bw50 => 50,
        Bandwidth::Bw60 => 60,
        Bandwidth::Bw80 => 80,
        Bandwidth::Bw100 => 100,
    }
}

impl Bandwidth {
    /// Bandwidth in Hz.
    pub fn as_hz(&self) -> (hz: u32)
        ensures
            hz == bandwidth_mhz(*self) * 1_000_000,
    {
        match self {
            Bandwidth::Bw5 => 5_000_000,
            Bandwidth::Bw10 => 10_000_000,
            Bandwidth::Bw15 => 15_000_000,
            Bandwidth::Bw20 => 20_000_000,
            Bandwidth::Bw25 => 25_000_000,
            Bandwidth::Bw30 => 30_000_000,
            Bandwidth::Bw40 => 40_000_000,
            Bandwidth::Bw50 => 50_000_000,
            Bandwidth::Bw60 => 60_000_000,
            Bandwidth::Bw80 => 80_000_000,
            Bandwidth::Bw100 => 100_000_000,
        }
    }

    /// Bandwidth in MHz.
    pub fn mhz(&self) -> (m: u32)
        ensures
            m == bandwidth_mhz(*self),
    {
        match self {
            Bandwidth::Bw5 => 5,
            Bandwidth::Bw10 => 10,
            Bandwidth::Bw15 => 15,
            Bandwidth::Bw20 => 20,
            Bandwidth::Bw25 => 25,
            Bandwidth::Bw30 => 30,
            Bandwidth::Bw40 => 40,
            Bandwidth::Bw50 => 50,
            Bandwidth::Bw60 => 60,
            Bandwidth::Bw80 => 80,
            Bandwidth::Bw100 => 100,
        }
    }
}

/// Duplex mode.
#[derive(Debug, Clone, Copy, PartialEq, Eq, Structural)]
pub enum DuplexMode {
    /// Frequency division duplex
    Fdd,
    /// Time division duplex
    Tdd,
}

/// QoS class identifier.
#[derive(Debug, Clone, Copy, PartialEq, Eq, Structural)]
pub struct Qci(pub u8);

impl Qci {
    /// Voice QCI (1).
    pub fn voice() -> (q: Qci)
        ensures
            q.0 == 1,
    {
        Qci(1)
    }

    /// Video QCI (2).
    pub fn video() -> (q: Qci)
        ensures
            q.0 == 2,
    {
        Qci(2)
    }

    /// Default bearer QCI (9).
    pub fn default_bearer() -> (q: Qci)
        ensures
            q.0 == 9,
    {
        Qci(9)
    }
}

/// Tracking area code.
#[derive(Debug, Clone, Copy, PartialEq, Eq, Structural)]
pub struct Tac(pub u32);

/// PLMN identity (MCC + MNC digits).
#[derive(Debug, Clone, Copy, PartialEq, Eq)]
pub struct PlmnId {
    /// Mobile country code digits
    pub mcc: [u8; 3],
    /// Mobile network code digits (2 or 3 used)
    pub mnc: [u8; 3],
    /// Number of MNC digits (2 or 3)
    pub mnc_len: u8,
}

/// The three BCD octets of a PLMN identity as 3GPP lays them out.
pub open spec fn plmn_octets(mcc: Seq<u8>, mnc: Seq<u8>, mnc_len: u8) -> Seq<u8> {
    seq![
        ((mcc[1] << 4u8) | mcc[0]) as u8,
        (if mnc_len == 2 { 0xF0u8 | mcc[2] } else { ((mnc[2] << 4u8) | mcc[2]) as u8 }),
        ((mnc[1] << 4u8) | mnc[0]) as u8,
    ]
}

impl PlmnId {
    /// Creates a PLMN identity when the MNC length is 2 or 3.
    pub fn new(mcc: [u8; 3], mnc: [u8; 3], mnc_len: u8) -> (r: Option<Self>)
        ensures
            r == (if mnc_len == 2 || mnc_len == 3 {
                Some(PlmnId { mcc, mnc, mnc_len })
            } else {
                None::<PlmnId>
            }),
    {
        if mnc_len == 2 || mnc_len == 3 {
            Some(PlmnId { mcc, mnc, mnc_len })
        } else {
            None
        }
    }

    /// Encodes the identity as the 3-octet 3GPP format.
    pub fn encode(&self) -> (e: [u8; 3])
        ensures
            e@ == plmn_octets(self.mcc@, self.mnc@, self.mnc_len),
    {
        let e0 = (self.mcc[1] << 4u8) | self.mcc[0];
        let e1 = if self.mnc_len == 2 {
            0xF0u8 | self.mcc[2]
        } else {
            (self.mnc[2] << 4u8) | self.mcc[2]
        };
        let e2 = (self.mnc[1] << 4u8) | self.mnc[0];
        let e = [e0, e1, e2];
        assert(e@ =~= plmn_octets(self.mcc@, self.mnc@, self.mnc_len));
        e
    }
}

/// Single network slice selection assistance information.
#[derive(Debug, Clone, PartialEq, Eq, Structural)]
pub struct SNssai {
    /// Slice/service type
    pub sst: u8,
    /// Slice differentiator
    pub sd: Option<u32>,
}

/// Modulation schemes used on the shared channel.
#[derive(Debug, Clone, Copy, PartialEq, Eq, Structural)]
pub enum ModulationScheme {
    /// QPSK (2 bits per symbol)
    Qpsk,
    /// 16-QAM (4 bits per symbol)
    Qam16,
    /// 64-QAM (6 bits per symbol)
    Qam64,
    /// 256-QAM (8 bits per symbol)
    Qam256,
}

/// A control resource set: its time span and the RBs it covers.
#[derive(Debug, Clone)]
pub struct CorsetConfig {
    /// First OFDM symbol of the set
    pub start_symbol: u8,
    /// Number of OFDM symbols
    pub duration: u8,
    /// Resource blocks of the set, in increasing order
    pub frequency_domain_resources: Vec<u16>,
}

/// Cell parameters shared by the downlink channel processors.
#[derive(Debug, Clone, Copy, PartialEq, Eq, Structural)]
pub struct CellConfig {
    /// Physical cell identity
    pub pci: u16,
    /// Cell identity
    pub cell_id: u16,
    /// Channel bandwidth
    pub bandwidth: Bandwidth,
    /// Subcarrier spacing
    pub subcarrier_spacing: SubcarrierSpacing,
}

} // verus!
