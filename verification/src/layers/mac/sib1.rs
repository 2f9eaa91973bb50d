//! SIB1 message generation.
use vstd::prelude::*;
use crate::common::types::CellId;
use crate::common::utils::{bytes_contents, bytes_from_vec};

verus! {

/// PLMN identity as SIB1 carries it.
#[derive(Debug, Clone)]
pub struct PlmnId {
    /// Mobile country code digits
    pub mcc: [u8; 3],
    /// Mobile network code digits (2 or 3)
    pub mnc: Vec<u8>,
}

/// The three PLMN octets: MCC2|MCC1, MNC3|MCC3 (filler F for a two-digit
/// MNC), MNC2|MNC1; each octet is (high << 4) | low.
pub open spec fn sib1_plmn_octets(mcc: Seq<u8>, mnc: Seq<u8>) -> Seq<u8> {
    seq![
        (mcc[1] << 4u8) | mcc[0],
        ((if mnc.len() == 3 { mnc[2] } else { 0xFu8 }) << 4u8) | mcc[2],
        (mnc[1] << 4u8) | mnc[0],
    ]
}

/// Splitting a byte built as (high << 4) | low gives back both nibbles.
proof fn lemma_nibbles(h: u8, l: u8)
    by (bit_vector)
    requires
        h < 16,
        l < 16,
    ensures
        ((h << 4u8) | l) & 0xFu8 == l,
        ((h << 4u8) | l) >> 4u8 == h,
{
}

/// The PLMN octets decode, nibble by nibble, back to exactly the digits:
/// MCC1 and MCC2 in the first octet (low, high), MCC3 and MNC3 in the
/// second (the filler F when the MNC has two digits), MNC1 and MNC2 in the
/// third.
pub proof fn lemma_plmn_octets_decode(mcc: Seq<u8>, mnc: Seq<u8>)
    requires
        mcc.len() == 3,
        2 <= mnc.len() <= 3,
        forall|i: int| 0 <= i < 3 ==> #[trigger] mcc[i] < 16,
        forall|i: int| 0 <= i < mnc.len() ==> #[trigger] mnc[i] < 16,
    ensures
        sib1_plmn_octets(mcc, mnc).len() == 3,
        sib1_plmn_octets(mcc, mnc)[0] & 0xFu8 == mcc[0],
        sib1_plmn_octets(mcc, mnc)[0] >> 4u8 == mcc[1],
        sib1_plmn_octets(mcc, mnc)[1] & 0xFu8 == mcc[2],
        mnc.len() == 3 ==> sib1_plmn_octets(mcc, mnc)[1] >> 4u8 == mnc[2],
        mnc.len() == 2 ==> sib1_plmn_octets(mcc, mnc)[1] >> 4u8 == 0xFu8,
        sib1_plmn_octets(mcc, mnc)[2] & 0xFu8 == mnc[0],
        sib1_plmn_octets(mcc, mnc)[2] >> 4u8 == mnc[1],
{
    assert(mcc[0] < 16 && mcc[1] < 16 && mcc[2] < 16);
    assert(mnc[0] < 16 && mnc[1] < 16);
    lemma_nibbles(mcc[1], mcc[0]);
    lemma_nibbles(mnc[1], mnc[0]);
    if mnc.len() == 3 {
        assert(mnc[2] < 16);
        lemma_nibbles(mnc[2], mcc[2]);
    } else {
        lemma_nibbles(0xFu8, mcc[2]);
    }
}

impl PlmnId {
    /// The test network 001-01.
    pub fn test_plmn() -> (p: Self)
        ensures
            p.mcc@ == seq![0u8, 0, 1],
            p.mnc@ == seq![0u8, 1],
    {
        let p = PlmnId { mcc: [0, 0, 1], mnc: vec![0, 1] };
        assert(p.mcc@ =~= seq![0u8, 0, 1]);
        p
    }

    /// The three PLMN octets.
    pub fn encode(&self) -> (e: [u8; 3])
        requires
            self.mnc@.len() >= 2,
        ensures
            e@ == sib1_plmn_octets(self.mcc@, self.mnc@),
    {
        let mut encoded: [u8; 3] = [0u8; 3];
        encoded.set(0, (self.mcc[1] << 4u8) | self.mcc[0]);
        if self.mnc.len() == 3 {
            encoded.set(1, (self.mnc[2] << 4u8) | self.mcc[2]);
        } else {
            encoded.set(1, (0xFu8 << 4u8) | self.mcc[2]);
        }
        encoded.set(2, (self.mnc[1] << 4u8) | self.mnc[0]);
        assert(encoded@ =~= sib1_plmn_octets(self.mcc@, self.mnc@));
        encoded
    }
}

/// Cell selection parameters.
#[derive(Debug, Clone, Copy, PartialEq, Eq, Structural)]
pub struct CellSelectionInfo {
    /// Minimum receive level (in units of 2 dB)
    pub q_rx_lev_min: i8,
    /// Offset to the minimum receive level
    pub q_rx_lev_min_offset: u8,
}

impl Default for CellSelectionInfo {
    /// -70 (that is -140 dBm) with no offset.
    fn default() -> (c: Self)
        ensures
            c == (CellSelectionInfo { q_rx_lev_min: -70i8, q_rx_lev_min_offset: 0 }),
    {
        CellSelectionInfo { q_rx_lev_min: -70, q_rx_lev_min_offset: 0 }
    }
}

/// SIB1 contents.
#[derive(Debug, Clone)]
pub struct Sib1Config {
    /// Cell identity
    pub cell_id: CellId,
    /// PLMN identity
    pub plmn_id: PlmnId,
    /// Tracking area code
    pub tac: u32,
    /// Cell selection parameters
    pub cell_selection_info: CellSelectionInfo,
    /// Frequency bands
    pub freq_band_list: Vec<u16>,
}

/// A 16-bit value, big-endian.
pub open spec fn be16(v: u16) -> Seq<u8> {
    seq![(v >> 8u16) as u8, (v & 0xFFu16) as u8]
}

/// A 32-bit value, big-endian.
pub open spec fn be32(v: u32) -> Seq<u8> {
    seq![(v >> 24u32) as u8, ((v >> 16u32) & 0xFFu32) as u8, ((v >> 8u32) & 0xFFu32) as u8, (v & 0xFFu32) as u8]
}

/// The band list, each band big-endian.
pub open spec fn bands_bytes(bands: Seq<u16>) -> Seq<u8>
    decreases bands.len(),
{
    if bands.len() == 0 {
        Seq::empty()
    } else {
        bands_bytes(bands.drop_last()) + be16(bands.last())
    }
}

/// The SIB1 message before padding: type 0x80, one PLMN, TAC (24 bits),
/// cell identity << 4 (32 bits), not barred, reselection allowed, cell
/// selection parameters, band list, empty scheduling lists and the minimal
/// serving cell configuration.
pub open spec fn sib1_body(c: Sib1Config) -> Seq<u8> {
    seq![0x80u8, 1u8] + sib1_plmn_octets(c.plmn_id.mcc@, c.plmn_id.mnc@) + seq![
        ((c.tac >> 16u32) & 0xFFu32) as u8,
        ((c.tac >> 8u32) & 0xFFu32) as u8,
        (c.tac & 0xFFu32) as u8,
    ] + be32((c.cell_id.0 as u32) << 4u32) + seq![
        0x00u8,
        0x01u8,
        c.cell_selection_info.q_rx_lev_min as u8,
        c.cell_selection_info.q_rx_lev_min_offset,
        c.freq_band_list@.len() as u8,
    ] + bands_bytes(c.freq_band_list@) + seq![0u8, 0, 0x01, 0x80, 20, 0, 0, 0, 0, 0]
}

/// The SIB1 message: the body, zero-padded to at least 100 bytes.
pub open spec fn sib1_message(c: Sib1Config) -> Seq<u8> {
    let b = sib1_body(c);
    if b.len() >= 100 {
        b
    } else {
        b + Seq::new((100 - b.len()) as nat, |i: int| 0u8)
    }
}

/// SIB1 generator.
pub struct Sib1Generator {
    config: Sib1Config,
}

impl Sib1Generator {
    /// The configuration.
    pub closed spec fn spec_config(&self) -> Sib1Config {
        self.config
    }

    /// Creates a generator for a configuration.
    pub fn new(config: Sib1Config) -> (g: Self)
        ensures
            g.spec_config() == config,
    {
        Sib1Generator { config }
    }

    /// Encodes SIB1.
    pub fn generate_sib1(&self) -> (r: Result<bytes::Bytes, crate::layers::LayerError>)
        requires
            self.spec_config().plmn_id.mnc@.len() >= 2,
        ensures
            r is Ok,
            bytes_contents(r->Ok_0) == sib1_message(self.spec_config()),
    {
        let c = &self.config;
        let mut buf: Vec<u8> = Vec::new();
        buf.push(0x80);
        buf.push(1);
        let plmn = c.plmn_id.encode();
        buf.push(plmn[0]);
        buf.push(plmn[1]);
        buf.push(plmn[2]);
        buf.push(((c.tac >> 16u32) & 0xFF) as u8);
        buf.push(((c.tac >> 8u32) & 0xFF) as u8);
        buf.push((c.tac & 0xFF) as u8);
        let cell = (c.cell_id.0 as u32) << 4u32;
        buf.push((cell >> 24u32) as u8);
        buf.push(((cell >> 16u32) & 0xFF) as u8);
        buf.push(((cell >> 8u32) & 0xFF) as u8);
        buf.push((cell & 0xFF) as u8);
        buf.push(0x00);
        buf.push(0x01);
        buf.push(c.cell_selection_info.q_rx_lev_min as u8);
        buf.push(c.cell_selection_info.q_rx_lev_min_offset);
        buf.push(c.freq_band_list.len() as u8);
        let ghost head = buf@;
        let mut i: usize = 0;
        while i < c.freq_band_list.len()
            invariant
                i <= c.freq_band_list@.len(),
                buf@ == head + bands_bytes(c.freq_band_list@.take(i as int)),
            decreases c.freq_band_list@.len() - i,
        {
            let band = c.freq_band_list[i];
            buf.push((band >> 8u16) as u8);
            buf.push((band & 0xFF) as u8);
            proof {
                assert(c.freq_band_list@.take(i + 1).drop_last() =~= c.freq_band_list@.take(i as int));
            }
            i = i + 1;
            assert(buf@ =~= head + bands_bytes(c.freq_band_list@.take(i as int)));
        }
        assert(c.freq_band_list@.take(c.freq_band_list@.len() as int) =~= c.freq_band_list@);
        buf.push(0);
        buf.push(0);
        buf.push(0x01);
        buf.push(0x80);
        buf.push(20);
        buf.push(0x00);
        buf.push(0x00);
        buf.push(0x00);
        buf.push(0x00);
        buf.push(0x00);
        assert(buf@ =~= sib1_body(*c));
        let ghost body = buf@;
        while buf.len() < 100
            invariant
                body.len() <= buf@.len() <= 100 || buf@ == body,
                buf@.len() >= body.len(),
                buf@ == body + Seq::new((buf@.len() - body.len()) as nat, |i: int| 0u8),
            decreases 100 - buf@.len(),
        {
            buf.push(0x00);
            assert(buf@ =~= body + Seq::new((buf@.len() - body.len()) as nat, |i: int| 0u8));
        }
        assert(buf@ =~= sib1_message(*c));
        Ok(bytes_from_vec(buf))
    }
}

/// The test SIB1 configuration of a cell: PLMN 001-01, TAC 1, default
/// cell selection, band 3.
pub fn default_sib1_config(cell_id: CellId) -> (c: Sib1Config)
    ensures
        c.cell_id == cell_id,
        c.plmn_id.mcc@ == seq![0u8, 0, 1],
        c.plmn_id.mnc@ == seq![0u8, 1],
        c.tac == 1,
        c.cell_selection_info == (CellSelectionInfo { q_rx_lev_min: -70i8, q_rx_lev_min_offset: 0 }),
        c.freq_band_list@ == seq![3u16],
{
    let bands: Vec<u16> = vec![3];
    assert(bands@ =~= seq![3u16]);
    Sib1Config {
        cell_id,
        plmn_id: PlmnId::test_plmn(),
        tac: 1,
        cell_selection_info: CellSelectionInfo::default(),
        freq_band_list: bands,
    }
}

} // verus!
