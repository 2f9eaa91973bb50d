//! PDCCH for SIB1: DCI format 1_0 (SI-RNTI) packing, CRC attachment with
//! RNTI masking, polar coding, scrambling, and the placement of the coded
//! bits and DMRS bits on the CORESET's resource elements.
use vstd::prelude::*;
use std::sync::Arc;
use crate::common::math::{exp2, lemma_exp2_values};
use crate::common::types::{CellConfig, CorsetConfig};
use crate::layers::phy::dmrs::{
    DmrsSequenceGenerator, calculate_pdcch_dmrs_cinit, dmrs_initial_state, gold_bit_at,
    pdcch_dmrs_cinit, lemma_gold_advance_add, gold_advance,
};
use crate::layers::phy::polar::{PdcchPolarEncoder, pdcch_e, pdcch_polar_encode, lemma_polar_n_log_fits};

verus! {

/// DCI format 1_0 scrambled by SI-RNTI.
#[derive(Debug, Clone, Copy, PartialEq, Eq, Structural)]
pub struct DciFormat10SiRnti {
    /// Frequency domain resource assignment
    pub frequency_resource: u16,
    /// Time domain resource assignment
    pub time_resource: u8,
    /// VRB-to-PRB mapping
    pub vrb_to_prb_mapping: u8,
    /// Modulation and coding scheme
    pub modulation_coding_scheme: u8,
    /// Redundancy version
    pub redundancy_version: u8,
    /// System information indicator
    pub system_information_indicator: u8,
}

/// PDCCH encoder parameters.
#[derive(Debug, Clone, Copy, PartialEq, Eq, Structural)]
pub struct PdcchEncoderConfig {
    /// Number of encoded bits E
    pub encoded_bits: usize,
    /// RNTI
    pub rnti: u16,
}

/// Two coded bits placed on one resource element (QPSK).
#[derive(Debug, Clone, Copy, PartialEq, Eq, Structural)]
pub struct ReBits {
    /// Subcarrier index in the grid
    pub subcarrier: u16,
    /// OFDM symbol
    pub symbol: u8,
    /// First bit (in-phase)
    pub b0: u8,
    /// Second bit (quadrature)
    pub b1: u8,
}

/// The resource-element contents of a PDCCH: coded data bits and DMRS bits.
#[derive(Debug, Clone)]
pub struct PdcchMapping {
    /// Data resource elements, in mapping order
    pub data: Vec<ReBits>,
    /// DMRS resource elements, in mapping order
    pub dmrs: Vec<ReBits>,
}

/// Search for the smallest b with 2^b >= x, from b with p = 2^b.
pub open spec fn cl2_from(b: nat, p: nat, x: nat) -> nat
    decreases (if p >= x { 0 } else { x - p }),
{
    if p == 0 || p >= x {
        b
    } else {
        cl2_from(b + 1, 2 * p, x)
    }
}

/// 2^16.
proof fn lemma_exp2_16()
    ensures
        exp2(16) == 65536,
{
    reveal_with_fuel(exp2, 17);
}

/// The smallest b with 2^b >= x (0 for x <= 1).
pub open spec fn ceil_log2(x: nat) -> nat {
    cl2_from(0, 1, x)
}

/// Bits w-1 .. 0 of `v`, most significant first.
pub open spec fn msb_bits32(v: u32, w: nat) -> Seq<u8> {
    Seq::new(w, |i: int| ((v >> ((w - 1 - i) as u32)) & 1u32) as u8)
}

/// Width of the frequency assignment field for a CORESET of `n_rb` RBs:
/// ceil(log2(n_rb (n_rb + 1) / 2)).
pub open spec fn freq_field_bits(n_rb: nat) -> nat {
    ceil_log2(n_rb * (n_rb + 1) / 2)
}

/// The ceiling-log search ends at the smallest b with 2^b >= x.
proof fn lemma_cl2_from(b: nat, p: nat, x: nat)
    requires
        p == exp2(b),
        b == 0 || exp2((b - 1) as nat) < x,
    ensures
        exp2(cl2_from(b, p, x)) >= x,
        cl2_from(b, p, x) == 0 || exp2((cl2_from(b, p, x) - 1) as nat) < x,
    decreases (if p >= x { 0 } else { x - p }),
{
    crate::common::math::lemma_exp2_pos(b);
    if p < x {
        lemma_cl2_from(b + 1, 2 * p, x);
    }
}

/// The DCI format 1_0 (SI-RNTI) field layout: with w the smallest width
/// such that 2^w >= N(N+1)/2, bits 0..w are the frequency assignment, then
/// 2 bits of time assignment, 1 VRB-to-PRB bit, 5 MCS bits, 2 redundancy
/// version bits and the SI indicator, every field most significant bit
/// first, and zeros up to 41 bits.
pub proof fn lemma_dci_field_layout(dci: DciFormat10SiRnti, n_rb: nat)
    requires
        n_rb <= 275,
    ensures
        exp2(freq_field_bits(n_rb)) >= n_rb * (n_rb + 1) / 2,
        freq_field_bits(n_rb) == 0 || exp2((freq_field_bits(n_rb) - 1) as nat) < n_rb * (n_rb + 1) / 2,
        freq_field_bits(n_rb) <= 16,
        dci_bits(dci, n_rb).len() == 41,
        forall|i: int|
            0 <= i < freq_field_bits(n_rb) ==> #[trigger] dci_bits(dci, n_rb)[i] == ((dci.frequency_resource as u32
                >> ((freq_field_bits(n_rb) - 1 - i) as u32)) & 1u32) as u8,
        forall|i: int|
            freq_field_bits(n_rb) <= i < freq_field_bits(n_rb) + 2 ==> #[trigger] dci_bits(dci, n_rb)[i] == ((
            dci.time_resource as u32 >> ((freq_field_bits(n_rb) + 1 - i) as u32)) & 1u32) as u8,
        dci_bits(dci, n_rb)[freq_field_bits(n_rb) + 2int] == ((dci.vrb_to_prb_mapping as u32 >> 0u32) & 1u32) as u8,
        forall|i: int|
            freq_field_bits(n_rb) + 3 <= i < freq_field_bits(n_rb) + 8 ==> #[trigger] dci_bits(dci, n_rb)[i] == ((
            dci.modulation_coding_scheme as u32 >> ((freq_field_bits(n_rb) + 7 - i) as u32)) & 1u32) as u8,
        forall|i: int|
            freq_field_bits(n_rb) + 8 <= i < freq_field_bits(n_rb) + 10 ==> #[trigger] dci_bits(dci, n_rb)[i] == ((
            dci.redundancy_version as u32 >> ((freq_field_bits(n_rb) + 9 - i) as u32)) & 1u32) as u8,
        dci_bits(dci, n_rb)[freq_field_bits(n_rb) + 10int] == ((dci.system_information_indicator as u32 >> 0u32)
            & 1u32) as u8,
        forall|i: int| freq_field_bits(n_rb) + 11 <= i < 41 ==> #[trigger] dci_bits(dci, n_rb)[i] == 0,
{
    let x = n_rb * (n_rb + 1) / 2;
    assert(n_rb * (n_rb + 1) <= 275 * 276) by (nonlinear_arith)
        requires
            n_rb <= 275,
    ;
    lemma_cl2_from(0, 1, x);
    let w = freq_field_bits(n_rb);
    lemma_exp2_16();
    if w > 16 {
        crate::common::math::lemma_exp2_le(16, (w - 1) as nat);
    }
    let fa = msb_bits32(dci.frequency_resource as u32, w);
    let ta = msb_bits32(dci.time_resource as u32, 2);
    let va = msb_bits32(dci.vrb_to_prb_mapping as u32, 1);
    let ma = msb_bits32(dci.modulation_coding_scheme as u32, 5);
    let ra = msb_bits32(dci.redundancy_version as u32, 2);
    let sa = msb_bits32(dci.system_information_indicator as u32, 1);
    let fields = fa + ta + va + ma + ra + sa;
    assert(fields.len() == w + 11);
    let bits = dci_bits(dci, n_rb);
    assert(forall|i: int| 0 <= i < fields.len() ==> bits[i] == fields[i]);
    assert forall|i: int| 0 <= i < w + 11 implies bits[i] == (if i < w {
        fa[i]
    } else if i < w + 2 {
        ta[i - w]
    } else if i < w + 3 {
        va[i - w - 2]
    } else if i < w + 8 {
        ma[i - w - 3]
    } else if i < w + 10 {
        ra[i - w - 8]
    } else {
        sa[i - w - 10]
    }) by {
        assert(bits[i] == fields[i]);
    }
}

/// The DCI fields in order (frequency assignment, time assignment,
/// VRB-to-PRB, MCS, RV, SI indicator), zero-padded to 41 bits.
pub open spec fn dci_bits(dci: DciFormat10SiRnti, n_rb: nat) -> Seq<u8> {
    let fields = msb_bits32(dci.frequency_resource as u32, freq_field_bits(n_rb)) + msb_bits32(
        dci.time_resource as u32,
        2,
    ) + msb_bits32(dci.vrb_to_prb_mapping as u32, 1) + msb_bits32(
        dci.modulation_coding_scheme as u32,
        5,
    ) + msb_bits32(dci.redundancy_version as u32, 2) + msb_bits32(
        dci.system_information_indicator as u32,
        1,
    );
    if fields.len() >= 41 {
        fields
    } else {
        fields + Seq::new((41 - fields.len()) as nat, |i: int| 0u8)
    }
}

/// One bit of the CRC-24C long division (remainder register of 25 bits).
pub open spec fn crc_div_step(r: u64, bit: u8) -> u64 {
    let r2 = (r << 1u64) | (bit as u64);
    if r2 & 0x100_0000u64 != 0 {
        r2 ^ 0x1B2B117u64
    } else {
        r2
    }
}

/// The remainder after the first `i` bits.
pub open spec fn crc_div_reg(bits: Seq<u8>, i: nat) -> u64
    decreases i,
{
    if i == 0 {
        0
    } else {
        crc_div_step(crc_div_reg(bits, (i - 1) as nat), bits[i - 1])
    }
}

/// The remainder after `n` appended zero bits.
pub open spec fn crc_div_flush(r: u64, n: nat) -> u64
    decreases n,
{
    if n == 0 {
        r
    } else {
        crc_div_step(crc_div_flush(r, (n - 1) as nat), 0)
    }
}

/// CRC-24C of the DCI with 24 leading ones, as computed by division of the
/// bits followed by 24 zeros.
pub open spec fn dci_crc(dci: Seq<u8>) -> u32 {
    let padded = Seq::new(24, |i: int| 1u8) + dci;
    (crc_div_flush(crc_div_reg(padded, padded.len()), 24) & 0xFF_FFFFu64) as u32
}

/// The DCI followed by its 24 CRC bits, the last 16 XORed with the RNTI
/// bits.
pub open spec fn dci_with_crc(dci: Seq<u8>, rnti: u16) -> Seq<u8> {
    let crc = dci_crc(dci);
    let n = dci.len();
    Seq::new(
        n + 24,
        |p: int|
            if p < n {
                dci[p]
            } else {
                let k = p - n;
                let c = ((crc >> ((23 - k) as u32)) & 1u32) as u8;
                if k >= 8 {
                    c ^ (((rnti >> ((15 - (k - 8)) as u16)) & 1u16) as u8)
                } else {
                    c
                }
            },
    )
}

/// Scrambling of the coded bits with the sequence seeded by
/// ((rnti << 16) + pci) mod 2^31.
pub open spec fn pdcch_scramble(bits: Seq<u8>, rnti: u16, pci: u16) -> Seq<u8> {
    let c_init = (((((rnti as u32) << 16u32) + pci) as u32) & 0x7FFF_FFFFu32) as u32;
    Seq::new(bits.len(), |i: int| bits[i] ^ gold_bit_at(dmrs_initial_state(c_init), i as nat))
}

/// The PRBs of the PDCCH: the distinct values first + reg / duration over
/// the REGs of the allocated CCEs, in increasing order (a contiguous run).
pub open spec fn pdcch_prbs(first: u16, duration: u8, aggregation_level: u8, cce_index: u16) -> Seq<u16> {
    let lo = (cce_index * 6) / (duration as int);
    let hi = ((cce_index + aggregation_level) * 6 - 1) / (duration as int);
    if aggregation_level == 0 {
        Seq::empty()
    } else {
        Seq::new((hi - lo + 1) as nat, |i: int| (first + lo + i) as u16)
    }
}

/// Data subcarriers of an RB: all but every fourth from 1 (1, 5, 9).
pub open spec fn pdcch_data_sc(j: int) -> int {
    j + (j + 2) / 3
}

/// The data resource elements: candidate k of the PRB/symbol/subcarrier
/// order carries bits 2k and 2k+1, as long as both exist.
pub open spec fn pdcch_data_res(prbs: Seq<u16>, start: u8, duration: u8, bits: Seq<u8>) -> Seq<ReBits> {
    let per_prb = 9 * duration as int;
    let candidates = prbs.len() * per_prb;
    let n = if candidates < bits.len() / 2 { candidates } else { (bits.len() / 2) as int };
    Seq::new(
        n as nat,
        |k: int|
            ReBits {
                subcarrier: (prbs[k / per_prb] * 12 + pdcch_data_sc(k % 9)) as u16,
                symbol: (start + (k / 9) % (duration as int)) as u8,
                b0: bits[2 * k],
                b1: bits[2 * k + 1],
            },
    )
}

/// The three DMRS resource elements of PRB `p` (subcarriers 1, 5, 9) in a
/// symbol: QPSK bits of sequence symbols 3p, 3p+1, 3p+2.
pub open spec fn pdcch_dmrs_prb(p: u16, symbol: u8, s: (u32, u32)) -> Seq<ReBits> {
    Seq::new(
        3,
        |j: int|
            ReBits {
                subcarrier: (p * 12 + 1 + 4 * j) as u16,
                symbol,
                b0: gold_bit_at(s, (2 * (3 * p + j)) as nat),
                b1: gold_bit_at(s, (2 * (3 * p + j) + 1) as nat),
            },
    )
}

/// DMRS of the first `i` PRBs (those below 275) in one symbol.
pub open spec fn pdcch_dmrs_prefix(prbs: Seq<u16>, symbol: u8, s: (u32, u32), i: nat) -> Seq<ReBits>
    decreases i,
{
    if i == 0 {
        Seq::empty()
    } else {
        let prev = pdcch_dmrs_prefix(prbs, symbol, s, (i - 1) as nat);
        if prbs[i - 1] < 275 {
            prev + pdcch_dmrs_prb(prbs[i - 1], symbol, s)
        } else {
            prev
        }
    }
}

/// The DMRS resource elements of one CORESET symbol: subcarriers 1, 5, 9 of
/// every PRB below 275, with the QPSK bits of that RB's sequence position.
pub open spec fn pdcch_dmrs_symbol(prbs: Seq<u16>, symbol: u8, pci: u16) -> Seq<ReBits> {
    pdcch_dmrs_prefix(prbs, symbol, dmrs_initial_state(pdcch_dmrs_cinit(0, symbol, pci) as u32), prbs.len())
}

/// The DMRS of all CORESET symbols from `start`, `n` symbols.
pub open spec fn pdcch_dmrs_res(prbs: Seq<u16>, start: u8, n: nat, pci: u16) -> Seq<ReBits>
    decreases n,
{
    if n == 0 {
        Seq::empty()
    } else {
        pdcch_dmrs_res(prbs, start, (n - 1) as nat, pci) + pdcch_dmrs_symbol(
            prbs,
            (start + n - 1) as u8,
            pci,
        )
    }
}

/// The coded, scrambled PDCCH bits of a SIB1 DCI.
pub open spec fn pdcch_sib1_bits(dci: DciFormat10SiRnti, n_rb: nat, aggregation_level: u8, pci: u16) -> Seq<u8> {
    pdcch_scramble(
        pdcch_polar_encode(dci_with_crc(dci_bits(dci, n_rb), 0xFFFF), aggregation_level),
        0xFFFF,
        pci,
    )
}

/// PDCCH processing for one cell.
#[derive(Clone)]
pub struct PdcchProcessor {
    cell_config: Arc<CellConfig>,
}

impl PdcchProcessor {
    /// The cell configuration.
    pub closed spec fn spec_cell(&self) -> CellConfig {
        *self.cell_config
    }

    /// A processor for a cell.
    pub fn new(cell_config: Arc<CellConfig>) -> (p: Self)
        ensures
            p.spec_cell() == *cell_config,
    {
        PdcchProcessor { cell_config }
    }

    /// The resource elements of the PDCCH that schedules SIB1: the DCI is
    /// packed, CRC-attached and masked with SI-RNTI, polar coded for the
    /// aggregation level, scrambled, and placed (two bits per resource
    /// element) on the CORESET PRBs of the CCEs, with the DMRS bits on
    /// subcarriers 1, 5 and 9 of each symbol.
    ///
    /// A CORESET spans at most 275 PRBs, the most a carrier has. The width of
    /// the frequency assignment field is the ceiling of log2(N(N+1)/2); over
    /// that range it is computed exactly in integers, where a single-precision
    /// logarithm of larger values would round differently.
    pub fn process_sib1_pdcch(&self, coreset: &CorsetConfig, dci: &DciFormat10SiRnti, aggregation_level: u8, cce_index: u16) -> (m: PdcchMapping)
        requires
            coreset.frequency_domain_resources@.len() >= 1,
            coreset.frequency_domain_resources@.len() <= 275,
            coreset.duration >= 1,
            coreset.start_symbol + coreset.duration <= 255,
            (cce_index + aggregation_level) * 6 <= 0xFFFF,
            (coreset.frequency_domain_resources@[0] + (cce_index + aggregation_level) * 6) * 12 + 12
                <= 0xFFFF,
        ensures
            m.data@ == pdcch_data_res(
                pdcch_prbs(
                    coreset.frequency_domain_resources@[0],
                    coreset.duration,
                    aggregation_level,
                    cce_index,
                ),
                coreset.start_symbol,
                coreset.duration,
                pdcch_sib1_bits(
                    *dci,
                    coreset.frequency_domain_resources@.len(),
                    aggregation_level,
                    self.spec_cell().pci,
                ),
            ),
            m.dmrs@ == pdcch_dmrs_res(
                pdcch_prbs(
                    coreset.frequency_domain_resources@[0],
                    coreset.duration,
                    aggregation_level,
                    cce_index,
                ),
                coreset.start_symbol,
                coreset.duration as nat,
                self.spec_cell().pci,
            ),
    {
        let dci_v = self.encode_dci_format_1_0_si_rnti(dci, coreset);
        let crc_attached = self.attach_crc_and_scramble(&dci_v, 0xFFFF);
        proof {
            lemma_exp2_values();
            lemma_polar_n_log_fits(65, pdcch_e(aggregation_level), 9);
        }
        let encoder = PdcchPolarEncoder::new();
        let encoded = encoder.encode(crc_attached.as_slice(), aggregation_level);
        let scrambled = self.scramble_data(&encoded, 0xFFFF);
        let prbs = self.calculate_prb_indices(coreset, aggregation_level, cce_index);
        proof {
            assert(prbs@.len() * 9 * coreset.duration <= 0x10000 * 9 * 255) by (nonlinear_arith)
                requires
                    prbs@.len() <= 0x10000,
                    coreset.duration <= 255,
            ;
        }
        let data = self.map_to_coreset(coreset, &scrambled, &prbs);
        let dmrs = self.generate_pdcch_dmrs(coreset, &prbs);
        PdcchMapping { data, dmrs }
    }
}

impl PdcchProcessor {
    /// Width of the frequency assignment field.
    fn calculate_frequency_domain_bits(&self, coreset: &CorsetConfig) -> (b: u8)
        requires
            coreset.frequency_domain_resources@.len() <= 275,
        ensures
            b == freq_field_bits(coreset.frequency_domain_resources@.len()),
            b <= 16,
    {
        let n_rb = coreset.frequency_domain_resources.len() as u32;
        proof {
            assert(n_rb * (n_rb + 1) <= 275 * 276) by (nonlinear_arith)
                requires
                    n_rb <= 275,
            ;
            lemma_exp2_16();
        }
        let x = n_rb * (n_rb + 1) / 2;
        let mut b: u8 = 0;
        let mut p: u32 = 1;
        while p < x
            invariant
                b <= 16,
                p == exp2(b as nat),
                p >= 1,
                exp2(16) == 65536,
                x <= 37950,
                cl2_from(b as nat, p as nat, x as nat) == ceil_log2(x as nat),
            decreases crate::layers::phy::shortfall(p as nat, x as nat),
        {
            proof {
                if b >= 16 {
                    crate::common::math::lemma_exp2_le(16, b as nat);
                }
            }
            p = p * 2;
            b = b + 1;
        }
        b
    }

    /// Appends the `num_bits` low bits of `value`, most significant first.
    fn append_bits(&self, bits: &mut Vec<u8>, value: u32, num_bits: u8)
        requires
            num_bits <= 32,
        ensures
            final(bits)@ == old(bits)@ + msb_bits32(value, num_bits as nat),
    {
        let ghost start = bits@;
        let mut i: u8 = num_bits;
        while i > 0
            invariant
                i <= num_bits <= 32,
                bits@ == start + msb_bits32(value, num_bits as nat).take(num_bits - i),
            decreases i,
        {
            i = i - 1;
            bits.push(((value >> (i as u32)) & 1) as u8);
            assert(bits@ =~= start + msb_bits32(value, num_bits as nat).take(num_bits - i));
        }
        assert(msb_bits32(value, num_bits as nat).take(num_bits as int) =~= msb_bits32(value, num_bits as nat));
    }

    /// Packs the DCI fields, zero-padded to 41 bits.
    fn encode_dci_format_1_0_si_rnti(&self, dci: &DciFormat10SiRnti, coreset: &CorsetConfig) -> (bits: Vec<u8>)
        requires
            coreset.frequency_domain_resources@.len() <= 275,
        ensures
            bits@ == dci_bits(*dci, coreset.frequency_domain_resources@.len()),
            bits@.len() == 41,
    {
        let mut bits: Vec<u8> = Vec::new();
        let freq_bits = self.calculate_frequency_domain_bits(coreset);
        self.append_bits(&mut bits, dci.frequency_resource as u32, freq_bits);
        self.append_bits(&mut bits, dci.time_resource as u32, 2);
        self.append_bits(&mut bits, dci.vrb_to_prb_mapping as u32, 1);
        self.append_bits(&mut bits, dci.modulation_coding_scheme as u32, 5);
        self.append_bits(&mut bits, dci.redundancy_version as u32, 2);
        self.append_bits(&mut bits, dci.system_information_indicator as u32, 1);
        let ghost fields = bits@;
        assert(fields.len() <= 27);
        while bits.len() < 41
            invariant
                fields.len() <= bits@.len() <= 41,
                bits@ == fields + Seq::new((bits@.len() - fields.len()) as nat, |i: int| 0u8),
            decreases 41 - bits@.len(),
        {
            bits.push(0);
            assert(bits@ =~= fields + Seq::new((bits@.len() - fields.len()) as nat, |i: int| 0u8));
        }
        assert(bits@ =~= dci_bits(*dci, coreset.frequency_domain_resources@.len()));
        bits
    }

    /// CRC-24C by long division with 24 appended zeros.
    fn calculate_crc24c(&self, data: &Vec<u8>) -> (crc: u32)
        ensures
            crc == (crc_div_flush(crc_div_reg(data@, data@.len()), 24) & 0xFF_FFFFu64) as u32,
    {
        let mut remainder: u64 = 0;
        let mut i: usize = 0;
        while i < data.len()
            invariant
                i <= data@.len(),
                remainder == crc_div_reg(data@, i as nat),
            decreases data@.len() - i,
        {
            remainder = (remainder << 1u64) | (data[i] as u64);
            if remainder & 0x100_0000u64 != 0 {
                remainder = remainder ^ 0x1B2B117u64;
            }
            i = i + 1;
        }
        let ghost r0 = remainder;
        let mut k: u32 = 0;
        while k < 24
            invariant
                k <= 24,
                remainder == crc_div_flush(r0, k as nat),
            decreases 24 - k,
        {
            remainder = remainder << 1u64;
            proof {
                let r = crc_div_flush(r0, k as nat);
                assert((r << 1u64) | (0u8 as u64) == r << 1u64) by (bit_vector);
            }
            if remainder & 0x100_0000u64 != 0 {
                remainder = remainder ^ 0x1B2B117u64;
            }
            k = k + 1;
        }
        (remainder & 0xFF_FFFFu64) as u32
    }

    /// Appends the CRC (computed with 24 leading ones) and masks its last 16
    /// bits with the RNTI.
    fn attach_crc_and_scramble(&self, dci_bits: &Vec<u8>, rnti: u16) -> (r: Vec<u8>)
        ensures
            r@ == dci_with_crc(dci_bits@, rnti),
            r@.len() == dci_bits@.len() + 24,
    {
        let mut padded: Vec<u8> = Vec::new();
        let mut i: usize = 0;
        while i < 24
            invariant
                i <= 24,
                padded@ == Seq::new(i as nat, |k: int| 1u8),
            decreases 24 - i,
        {
            padded.push(1);
            i = i + 1;
            assert(padded@ =~= Seq::new(i as nat, |k: int| 1u8));
        }
        let mut j: usize = 0;
        while j < dci_bits.len()
            invariant
                j <= dci_bits@.len(),
                padded@ == Seq::new(24, |k: int| 1u8) + dci_bits@.take(j as int),
            decreases dci_bits@.len() - j,
        {
            padded.push(dci_bits[j]);
            j = j + 1;
            assert(padded@ =~= Seq::new(24, |k: int| 1u8) + dci_bits@.take(j as int));
        }
        assert(dci_bits@.take(dci_bits@.len() as int) =~= dci_bits@);
        let crc = self.calculate_crc24c(&padded);
        assert(crc == dci_crc(dci_bits@));
        let n = dci_bits.len();
        let mut combined: Vec<u8> = Vec::new();
        let mut j: usize = 0;
        while j < n
            invariant
                j <= n,
                n == dci_bits@.len(),
                combined@ == dci_bits@.take(j as int),
            decreases n - j,
        {
            combined.push(dci_bits[j]);
            j = j + 1;
            assert(combined@ =~= dci_bits@.take(j as int));
        }
        let mut k: u32 = 0;
        while k < 24
            invariant
                k <= 24,
                n == dci_bits@.len(),
                crc == dci_crc(dci_bits@),
                combined@.len() == n + k,
                forall|p: int| 0 <= p < n + k ==> combined@[p] == dci_with_crc(dci_bits@, rnti)[p],
            decreases 24 - k,
        {
            let c = ((crc >> (23 - k)) & 1) as u8;
            let v = if k >= 8 {
                c ^ (((rnti >> ((15 - (k - 8)) as u16)) & 1) as u8)
            } else {
                c
            };
            combined.push(v);
            k = k + 1;
        }
        assert(combined@ =~= dci_with_crc(dci_bits@, rnti));
        combined
    }

    /// Scrambles coded bits with the sequence of the RNTI and cell.
    fn scramble_data(&self, data: &Vec<u8>, rnti: u16) -> (r: Vec<u8>)
        ensures
            r@ == pdcch_scramble(data@, rnti, self.spec_cell().pci),
    {
        let n_id = self.cell_config.pci;
        let r32 = rnti as u32;
        assert(r32 << 16u32 <= 0xFFFF_0000u32) by (bit_vector)
            requires
                r32 <= 0xFFFF,
        ;
        let c_init = ((r32 << 16u32) + n_id as u32) & 0x7FFF_FFFF;
        let mut generator = DmrsSequenceGenerator::new(c_init);
        let ghost s0 = generator.state();
        let mut out: Vec<u8> = Vec::new();
        let mut i: usize = 0;
        while i < data.len()
            invariant
                i <= data@.len(),
                s0 == dmrs_initial_state(c_init),
                c_init == (((((rnti as u32) << 16u32) + self.spec_cell().pci) as u32) & 0x7FFF_FFFFu32) as u32,
                generator.state() == gold_advance(s0, i as nat),
                out@.len() == i,
                forall|m: int| 0 <= m < i ==> out@[m] == pdcch_scramble(data@, rnti, self.spec_cell().pci)[m],
            decreases data@.len() - i,
        {
            let c = generator.next_bit();
            proof {
                lemma_gold_advance_add(s0, i as nat, 1);
            }
            out.push(data[i] ^ c);
            i = i + 1;
        }
        assert(out@ =~= pdcch_scramble(data@, rnti, self.spec_cell().pci));
        out
    }

    /// The PRBs of the CCEs: first + reg / duration for the REGs of the
    /// allocated CCEs, distinct and increasing.
    fn calculate_prb_indices(&self, coreset: &CorsetConfig, aggregation_level: u8, cce_index: u16) -> (r: Vec<u16>)
        requires
            coreset.frequency_domain_resources@.len() >= 1,
            coreset.duration >= 1,
            (cce_index + aggregation_level) * 6 <= 0xFFFF,
            coreset.frequency_domain_resources@[0] + (cce_index + aggregation_level) * 6 <= 0xFFFF,
        ensures
            r@ == pdcch_prbs(coreset.frequency_domain_resources@[0], coreset.duration, aggregation_level, cce_index),
            forall|a: int, b: int| 0 <= a < b < r@.len() ==> r@[a] < r@[b],
            forall|a: int| 0 <= a < r@.len() ==> r@[a] <= coreset.frequency_domain_resources@[0] + (cce_index + aggregation_level) * 6,
            r@.len() <= (cce_index + aggregation_level) * 6 + 1,
    {
        let mut prbs: Vec<u16> = Vec::new();
        if aggregation_level == 0 {
            return prbs;
        }
        let first = coreset.frequency_domain_resources[0];
        let dur = coreset.duration as u16;
        let lo = (cce_index * 6) / dur;
        let hi = ((cce_index + aggregation_level as u16) * 6 - 1) / dur;
        assert(lo <= hi) by (nonlinear_arith)
            requires
                lo == (cce_index * 6) / (dur as int),
                hi == ((cce_index + aggregation_level) * 6 - 1) / (dur as int),
                aggregation_level >= 1,
                dur >= 1,
        ;
        assert(hi <= (cce_index + aggregation_level) * 6) by (nonlinear_arith)
            requires
                hi == ((cce_index + aggregation_level) * 6 - 1) / (dur as int),
                dur >= 1,
                aggregation_level >= 1,
        ;
        let mut q: u16 = lo;
        while q <= hi
            invariant
                lo <= q <= hi + 1,
                hi <= (cce_index + aggregation_level) * 6,
                first + (cce_index + aggregation_level) * 6 <= 0xFFFF,
                prbs@ == Seq::new((q - lo) as nat, |i: int| (first + lo + i) as u16),
            decreases hi + 1 - q,
        {
            prbs.push(first + q);
            q = q + 1;
            assert(prbs@ =~= Seq::new((q - lo) as nat, |i: int| (first + lo + i) as u16));
        }
        prbs
    }

    /// Places the coded bits, two per resource element, on the data
    /// subcarriers of the PRBs and symbols of the CORESET.
    fn map_to_coreset(&self, coreset: &CorsetConfig, bits: &Vec<u8>, prbs: &Vec<u16>) -> (r: Vec<ReBits>)
        requires
            coreset.start_symbol + coreset.duration <= 255,
            coreset.duration >= 1,
            forall|a: int| 0 <= a < prbs@.len() ==> prbs@[a] * 12 + 12 <= 0xFFFF,
            prbs@.len() * 9 * coreset.duration <= usize::MAX,
        ensures
            r@ == pdcch_data_res(prbs@, coreset.start_symbol, coreset.duration, bits@),
    {
        let len = bits.len();
        let start = coreset.start_symbol;
        let dur = coreset.duration;
        let ghost target = pdcch_data_res(prbs@, start, dur, bits@);
        let ghost per_prb = 9 * dur as int;
        let mut out: Vec<ReBits> = Vec::new();
        let mut bit_idx: usize = 0;
        let mut pi: usize = 0;
        while pi < prbs.len()
            invariant
                pi <= prbs@.len(),
                len == bits@.len(),
                start == coreset.start_symbol,
                dur == coreset.duration,
                dur >= 1,
                start + dur <= 255,
                per_prb == 9 * dur as int,
                target == pdcch_data_res(prbs@, start, dur, bits@),
                forall|a: int| 0 <= a < prbs@.len() ==> prbs@[a] * 12 + 12 <= 0xFFFF,
                bit_idx == 2 * out@.len(),
                out@.len() == (if pi * per_prb < len / 2 { pi * per_prb } else { (len / 2) as int }),
                forall|m: int| 0 <= m < out@.len() ==> out@[m] == target[m],
            decreases prbs@.len() - pi,
        {
            let prb = prbs[pi];
            let mut si: u8 = 0;
            while si < dur
                invariant
                    si <= dur,
                    pi < prbs@.len(),
                    prb == prbs@[pi as int],
                    len == bits@.len(),
                    start == coreset.start_symbol,
                    dur == coreset.duration,
                    dur >= 1,
                    start + dur <= 255,
                    per_prb == 9 * dur as int,
                    target == pdcch_data_res(prbs@, start, dur, bits@),
                    prb * 12 + 12 <= 0xFFFF,
                    bit_idx == 2 * out@.len(),
                    out@.len() == (if pi * per_prb + si * 9 < len / 2 { pi * per_prb + si * 9 } else { (len / 2) as int }),
                    forall|m: int| 0 <= m < out@.len() ==> out@[m] == target[m],
                decreases dur - si,
            {
                let symbol = start + si;
                let mut sc: u16 = 0;
                let ghost mut j: int = 0;
                while sc < 12
                    invariant
                        sc <= 12,
                        j == sc - (sc + 2) / 4,
                        si < dur,
                        pi < prbs@.len(),
                        prb == prbs@[pi as int],
                        symbol == start + si,
                        len == bits@.len(),
                        start == coreset.start_symbol,
                        dur == coreset.duration,
                        dur >= 1,
                        start + dur <= 255,
                        per_prb == 9 * dur as int,
                        target == pdcch_data_res(prbs@, start, dur, bits@),
                        prb * 12 + 12 <= 0xFFFF,
                        bit_idx == 2 * out@.len(),
                        out@.len() == (if pi * per_prb + si * 9 + j < len / 2 { pi * per_prb + si * 9 + j } else { (len / 2) as int }),
                        forall|m: int| 0 <= m < out@.len() ==> out@[m] == target[m],
                    decreases 12 - sc,
                {
                    if sc % 4 != 1 {
                        if bit_idx + 1 < len {
                            let ghost k = out@.len() as int;
                            proof {
                                assert(k == pi * per_prb + si * 9 + j);
                                let q1 = pi * (dur as int) + si;
                                assert(k == q1 * 9 + j && k == pi * per_prb + (9 * si + j) && 0 <= 9 * si + j < per_prb) by (nonlinear_arith)
                                    requires
                                        k == pi * per_prb + si * 9 + j,
                                        per_prb == 9 * dur,
                                        q1 == pi * dur + si,
                                        0 <= j < 9,
                                        0 <= si < dur,
                                ;
                                vstd::arithmetic::div_mod::lemma_fundamental_div_mod_converse(k, per_prb, pi as int, 9 * si + j);
                                vstd::arithmetic::div_mod::lemma_fundamental_div_mod_converse(k, 9, q1, j);
                                vstd::arithmetic::div_mod::lemma_fundamental_div_mod_converse(q1, dur as int, pi as int, si as int);
                                assert(pdcch_data_sc(j) == sc);
                                assert(pi * per_prb + si * 9 + j < prbs@.len() * per_prb) by (nonlinear_arith)
                                    requires
                                        pi < prbs@.len(),
                                        per_prb == 9 * dur,
                                        0 <= j < 9,
                                        0 <= si < dur,
                                ;
                            }
                            out.push(ReBits { subcarrier: prb * 12 + sc, symbol, b0: bits[bit_idx], b1: bits[bit_idx + 1] });
                            bit_idx = bit_idx + 2;
                        }
                        proof {
                            j = j + 1;
                        }
                    }
                    sc = sc + 1;
                }
                si = si + 1;
            }
            assert(pi * per_prb + dur * 9 == (pi + 1) * per_prb) by (nonlinear_arith)
                requires
                    per_prb == 9 * dur,
            ;
            pi = pi + 1;
        }
        proof {
            assert(out@.len() == target.len());
        }
        assert(out@ =~= target);
        out
    }

    /// The DMRS resource elements of each CORESET symbol.
    fn generate_pdcch_dmrs(&self, coreset: &CorsetConfig, prbs: &Vec<u16>) -> (r: Vec<ReBits>)
        requires
            coreset.start_symbol + coreset.duration <= 255,
            forall|a: int, b: int| 0 <= a < b < prbs@.len() ==> prbs@[a] < prbs@[b],
            forall|a: int| 0 <= a < prbs@.len() ==> prbs@[a] * 12 + 12 <= 0xFFFF,
        ensures
            r@ == pdcch_dmrs_res(prbs@, coreset.start_symbol, coreset.duration as nat, self.spec_cell().pci),
    {
        let mut out: Vec<ReBits> = Vec::new();
        let mut si: u8 = 0;
        while si < coreset.duration
            invariant
                si <= coreset.duration,
                coreset.start_symbol + coreset.duration <= 255,
                forall|a: int, b: int| 0 <= a < b < prbs@.len() ==> prbs@[a] < prbs@[b],
                forall|a: int| 0 <= a < prbs@.len() ==> prbs@[a] * 12 + 12 <= 0xFFFF,
                out@ == pdcch_dmrs_res(prbs@, coreset.start_symbol, si as nat, self.spec_cell().pci),
            decreases coreset.duration - si,
        {
            let symbol = coreset.start_symbol + si;
            let c_init = calculate_pdcch_dmrs_cinit(0, symbol, self.cell_config.pci);
            let mut generator = DmrsSequenceGenerator::new(c_init);
            let ghost s0 = generator.state();
            let ghost before = out@;
            let mut current: u16 = 0;
            let mut i: usize = 0;
            while i < prbs.len()
                invariant
                    i <= prbs@.len(),
                    forall|a: int, b: int| 0 <= a < b < prbs@.len() ==> prbs@[a] < prbs@[b],
                    forall|a: int| 0 <= a < prbs@.len() ==> prbs@[a] * 12 + 12 <= 0xFFFF,
                    s0 == dmrs_initial_state(pdcch_dmrs_cinit(0, symbol, self.spec_cell().pci) as u32),
                    current <= 275,
                    i > 0 ==> current <= prbs@[i - 1] + 1,
                    i < prbs@.len() && i > 0 && prbs@[i - 1] < 275 ==> current == prbs@[i - 1] + 1,
                    forall|a: int| i <= a < prbs@.len() ==> current <= prbs@[a] || prbs@[a] >= 275 || current == 0,
                    generator.state() == gold_advance(s0, (6 * current) as nat),
                    out@ == before + pdcch_dmrs_prefix(prbs@, symbol, s0, i as nat),
                decreases prbs@.len() - i,
            {
                let p = prbs[i];
                if p < 275 {
                    if p > current {
                        generator.skip(((p - current) * 3) as usize);
                        proof {
                            lemma_gold_advance_add(s0, (6 * current) as nat, (((p - current) * 3) * 2) as nat);
                        }
                    }
                    let ghost mid = out@;
                    let mut j: u16 = 0;
                    while j < 3
                        invariant
                            j <= 3,
                            p < 275,
                            p * 12 + 12 <= 0xFFFF,
                            generator.state() == gold_advance(s0, (6 * p + 2 * j) as nat),
                            out@ == mid + pdcch_dmrs_prb(p, symbol, s0).take(j as int),
                        decreases 3 - j,
                    {
                        let b0 = generator.next_bit();
                        proof {
                            lemma_gold_advance_add(s0, (6 * p + 2 * j) as nat, 1);
                        }
                        let b1 = generator.next_bit();
                        proof {
                            lemma_gold_advance_add(s0, (6 * p + 2 * j + 1) as nat, 1);
                        }
                        out.push(ReBits { subcarrier: p * 12 + 1 + 4 * j, symbol, b0, b1 });
                        j = j + 1;
                        assert(out@ =~= mid + pdcch_dmrs_prb(p, symbol, s0).take(j as int));
                    }
                    assert(pdcch_dmrs_prb(p, symbol, s0).take(3) =~= pdcch_dmrs_prb(p, symbol, s0));
                    current = p + 1;
                }
                i = i + 1;
            }
            si = si + 1;
        }
        out
    }
}

} // verus!
