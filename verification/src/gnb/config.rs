//! Configuration structures of the gNB (the part without radio-front-end
//! floating point settings) and PLMN string parsing.
use vstd::prelude::*;
use vstd::string::StringSliceAdditionalSpecFns;

verus! {

/// CU-CP (control plane) configuration.
#[derive(Debug, Clone)]
pub struct CuCpConfig {
    /// AMF configuration
    pub amf: AmfConfig,
    /// Inactivity timer in seconds
    pub inactivity_timer: u32,
}

/// AMF configuration.
#[derive(Debug, Clone)]
pub struct AmfConfig {
    /// AMF address
    pub addr: String,
    /// AMF port
    pub port: u16,
    /// Bind address for gNodeB
    pub bind_addr: String,
    /// Supported tracking areas
    pub supported_tracking_areas: Vec<TrackingAreaConfig>,
}

/// Tracking area configuration.
#[derive(Debug, Clone)]
pub struct TrackingAreaConfig {
    /// Tracking area code
    pub tac: u32,
    /// PLMN list
    pub plmn_list: Vec<PlmnConfig>,
}

/// PLMN configuration.
#[derive(Debug, Clone)]
pub struct PlmnConfig {
    /// PLMN ID (MCC+MNC)
    pub plmn: String,
    /// TAI slice support list
    pub tai_slice_support_list: Vec<SliceConfig>,
}

/// Slice configuration.
#[derive(Debug, Clone, Copy)]
pub struct SliceConfig {
    /// Slice/Service Type
    pub sst: u8,
    /// Slice Differentiator (optional)
    pub sd: Option<u32>,
}

/// CU-UP (user plane) configuration.
#[derive(Debug, Clone)]
pub struct CuUpConfig {
    /// GTP-U bind address
    pub gtpu_bind_addr: String,
    /// GTP-U external address
    pub gtpu_ext_addr: String,
}

/// Cell configuration.
#[derive(Debug, Clone)]
pub struct CellConfig {
    /// Downlink ARFCN
    pub dl_arfcn: u32,
    /// Band number
    pub band: u16,
    /// Channel bandwidth in MHz
    pub channel_bandwidth_mhz: u32,
    /// Common subcarrier spacing in kHz
    pub common_scs: u32,
    /// PLMN
    pub plmn: String,
    /// Tracking area code
    pub tac: u32,
    /// Physical Cell ID
    pub pci: u16,
    /// PDCCH configuration
    pub pdcch: PdcchConfig,
    /// PRACH configuration
    pub prach: PrachConfig,
    /// PDSCH configuration
    pub pdsch: PdschConfig,
    /// PUSCH configuration
    pub pusch: PuschConfig,
}

/// PDCCH configuration.
#[derive(Debug, Clone)]
pub struct PdcchConfig {
    /// Common PDCCH configuration
    pub common: CommonPdcchConfig,
    /// Dedicated PDCCH configuration
    pub dedicated: DedicatedPdcchConfig,
}

/// Common PDCCH configuration.
#[derive(Debug, Clone, Copy)]
pub struct CommonPdcchConfig {
    /// Search space 0 index
    pub ss0_index: u8,
    /// CORESET#0 index
    pub coreset0_index: u8,
}

/// Dedicated PDCCH configuration.
#[derive(Debug, Clone)]
pub struct DedicatedPdcchConfig {
    /// Search space 2 type
    pub ss2_type: String,
    /// DCI format 0_1 and 1_1 enabled
    pub dci_format_0_1_and_1_1: bool,
}

/// PRACH configuration.
#[derive(Debug, Clone, Copy)]
pub struct PrachConfig {
    /// PRACH configuration index
    pub prach_config_index: u8,
    /// PRACH root sequence index
    pub prach_root_sequence_index: u16,
    /// Zero correlation zone
    pub zero_correlation_zone: u8,
    /// PRACH frequency start
    pub prach_frequency_start: u16,
    /// Total number of RA preambles
    pub total_nof_ra_preambles: u8,
    /// Number of SSB per RACH occasion
    pub nof_ssb_per_ro: u8,
    /// Number of CB preambles per SSB
    pub nof_cb_preambles_per_ssb: u8,
}

/// PDSCH configuration.
#[derive(Debug, Clone)]
pub struct PdschConfig {
    /// MCS table
    pub mcs_table: String,
}

/// PUSCH configuration.
#[derive(Debug, Clone)]
pub struct PuschConfig {
    /// MCS table
    pub mcs_table: String,
}

/// Logging configuration.
#[derive(Debug, Clone)]
pub struct LogConfig {
    /// Log filename
    pub filename: Option<String>,
    /// All layers log level
    pub all_level: String,
    /// PHY layer log level
    pub phy_level: String,
    /// MAC layer log level
    pub mac_level: String,
    /// RLC layer log level
    pub rlc_level: String,
    /// PDCP layer log level
    pub pdcp_level: String,
    /// RRC layer log level
    pub rrc_level: String,
    /// NGAP layer log level
    pub ngap_level: String,
}

/// PCAP configuration.
#[derive(Debug, Clone)]
pub struct PcapConfig {
    /// Enable MAC PCAP
    pub mac_enable: bool,
    /// MAC PCAP filename
    pub mac_filename: Option<String>,
    /// Enable NGAP PCAP
    pub ngap_enable: bool,
    /// NGAP PCAP filename
    pub ngap_filename: Option<String>,
}

/// Why a PLMN string was refused.
#[derive(Debug, Clone, Copy, PartialEq, Eq, Structural)]
pub enum PlmnError {
    /// Not 5 or 6 bytes long
    InvalidFormat,
    /// MCC or MNC is not a decimal number
    InvalidNumber,
}

/// The byte is an ASCII decimal digit.
pub open spec fn is_digit(b: u8) -> bool {
    48 <= b <= 57
}

/// Decimal value of a string of digits.
pub open spec fn decimal_value(s: Seq<u8>) -> int
    decreases s.len(),
{
    if s.len() == 0 {
        0
    } else {
        decimal_value(s.drop_last()) * 10 + (s.last() - 48)
    }
}

/// The digits of a number: the string without a leading `+`.
pub open spec fn number_digits(s: Seq<u8>) -> Seq<u8> {
    if s.len() > 0 && s[0] == 43 {
        s.drop_first()
    } else {
        s
    }
}

/// Every byte is a digit.
pub open spec fn all_digits(d: Seq<u8>) -> bool {
    forall|i: int| 0 <= i < d.len() ==> is_digit(#[trigger] d[i])
}

/// An unsigned number as `str::parse` reads it: an optional `+`, then at
/// least one digit and nothing else.
pub open spec fn parse_number_spec(s: Seq<u8>) -> Option<int> {
    let digits = number_digits(s);
    if digits.len() > 0 && all_digits(digits) {
        Some(decimal_value(digits))
    } else {
        None
    }
}

/// A PLMN string of 5 or 6 bytes: MCC from the first three, MNC from the
/// rest.
pub open spec fn parse_plmn_spec(b: Seq<u8>) -> Result<(u16, u16), PlmnError> {
    if b.len() < 5 || b.len() > 6 {
        Err(PlmnError::InvalidFormat)
    } else {
        let mcc = parse_number_spec(b.subrange(0, 3));
        let mnc = parse_number_spec(b.subrange(3, b.len() as int));
        if mcc is Some && mnc is Some {
            Ok((mcc->0 as u16, mnc->0 as u16))
        } else {
            Err(PlmnError::InvalidNumber)
        }
    }
}

proof fn lemma_decimal_bound(s: Seq<u8>)
    requires
        forall|i: int| 0 <= i < s.len() ==> is_digit(#[trigger] s[i]),
    ensures
        0 <= decimal_value(s),
        s.len() <= 3 ==> decimal_value(s) <= 999,
        s.len() <= 2 ==> decimal_value(s) <= 99,
        s.len() <= 1 ==> decimal_value(s) <= 9,
    decreases s.len(),
{
    if s.len() > 0 {
        let p = s.drop_last();
        assert forall|i: int| 0 <= i < p.len() implies is_digit(#[trigger] p[i]) by {
            assert(p[i] == s[i]);
        }
        lemma_decimal_bound(p);
        assert(is_digit(s[s.len() - 1]));
    }
}

/// The number in `b[start..end]` (at most three bytes), as `str::parse`
/// reads it.
fn parse_small_number(b: &[u8], start: usize, end: usize) -> (r: Option<u16>)
    requires
        start <= end <= b@.len(),
        end - start <= 3,
    ensures
        r is Some <==> parse_number_spec(b@.subrange(start as int, end as int)) is Some,
        r is Some ==> r->0 == parse_number_spec(b@.subrange(start as int, end as int))->0,
{
    let ghost s = b@.subrange(start as int, end as int);
    let mut i = start;
    if i < end && b[i] == 43 {
        i = i + 1;
    }
    let ghost digits = b@.subrange(i as int, end as int);
    assert(digits =~= number_digits(s));
    if i == end {
        return None;
    }
    let mut value: u16 = 0;
    let mut k = i;
    while k < end
        invariant
            start <= i <= k <= end <= b@.len(),
            end - i <= 3,
            digits == b@.subrange(i as int, end as int),
            s == b@.subrange(start as int, end as int),
            digits == number_digits(s),
            forall|j: int| i <= j < k ==> is_digit(#[trigger] b@[j]),
            value == decimal_value(b@.subrange(i as int, k as int)),
            value <= 999,
        decreases end - k,
    {
        if b[k] < 48 || b[k] > 57 {
            assert(digits[k - i] == b@[k as int]);
            assert(!is_digit(digits[k - i]));
            assert(parse_number_spec(s) is None);
            return None;
        }
        proof {
            let pre = b@.subrange(i as int, k as int);
            let ext = b@.subrange(i as int, k + 1);
            assert(ext.drop_last() =~= pre);
            assert forall|j: int| 0 <= j < ext.len() implies is_digit(#[trigger] ext[j]) by {
                assert(ext[j] == b@[i + j]);
            }
            lemma_decimal_bound(ext);
        }
        value = value * 10 + (b[k] - 48) as u16;
        k = k + 1;
    }
    assert(b@.subrange(i as int, k as int) =~= digits);
    assert forall|j: int| 0 <= j < digits.len() implies is_digit(#[trigger] digits[j]) by {
        assert(digits[j] == b@[i + j]);
    }
    Some(value)
}

/// Splits a PLMN string such as "00101" or "310260" into MCC and MNC;
/// `InvalidFormat` unless it is 5 or 6 bytes long, `InvalidNumber` when
/// either part is not a number.
pub fn parse_plmn(plmn: &str) -> (r: Result<(u16, u16), PlmnError>)
    requires
        5 <= plmn.spec_bytes().len() <= 6 ==> vstd::utf8::is_char_boundary(plmn.spec_bytes(), 3),
    ensures
        r == parse_plmn_spec(plmn.spec_bytes()),
{
    let b = plmn.as_bytes();
    if b.len() < 5 || b.len() > 6 {
        return Err(PlmnError::InvalidFormat);
    }
    let mcc = parse_small_number(b, 0, 3);
    let mnc = parse_small_number(b, 3, b.len());
    match (mcc, mnc) {
        (Some(m), Some(n)) => Ok((m, n)),
        _ => Err(PlmnError::InvalidNumber),
    }
}

} // verus!
