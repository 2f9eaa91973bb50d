//! PDSCH for SIB1: transport block CRC and code block segmentation, LDPC
//! coding per code block, scrambling, grouping into modulation symbols, and
//! the placement of the symbols and DMRS bits on resource elements.
use vstd::prelude::*;
use std::sync::Arc;
use crate::common::types::{CellConfig, ModulationScheme};
use crate::layers::phy::dmrs::{
    DmrsSequenceGenerator, calculate_pdsch_dmrs_cinit, dmrs_initial_state, dmrs_mask_bits,
    generate_dmrs_bits, gold_advance, gold_bit_at, lemma_gold_advance_add, pdsch_dmrs_cinit,
};
use crate::layers::phy::ldpc::{PdschLdpcEncoder, pack_bit_values, pack_values, pdsch_ldpc_encode_spec, unpack_bit_values};
use crate::layers::phy::pbch::fold_u8;
use crate::layers::phy::pdcch::ReBits;
use crate::common::utils::{crc24_reg, crc24_shift, crc24_spec};

verus! {

/// PDSCH parameters of a transmission.
#[derive(Debug, Clone)]
pub struct PdschConfig {
    /// Transport block size in bytes
    pub tbs_bytes: usize,
    /// Modulation scheme
    pub modulation: ModulationScheme,
    /// Number of layers
    pub num_layers: u8,
    /// Redundancy version
    pub rv: u8,
    /// LDPC base graph (1 or 2)
    pub ldpc_base_graph: u8,
    /// New data indicator
    pub ndi: bool,
    /// HARQ process
    pub harq_id: u8,
    /// Allocated PRBs
    pub prb_allocation: Vec<u16>,
    /// First symbol
    pub start_symbol: u8,
    /// Number of symbols
    pub num_symbols: u8,
    /// DMRS type
    pub dmrs_type: u8,
    /// Additional DMRS positions
    pub dmrs_additional_pos: u8,
    /// DMRS configuration type
    pub dmrs_config_type: u8,
    /// Scrambling identity
    pub n_id: u16,
    /// RNTI
    pub rnti: u16,
    /// Code block size in bits
    pub code_block_size: usize,
}

/// A transport block after coding.
#[derive(Debug, Clone)]
pub struct TransportBlockResult {
    /// Rate-matched bits of all code blocks, packed
    pub encoded_bits: Vec<u8>,
    /// Number of code blocks
    pub num_code_blocks: usize,
    /// Code block size in bits
    pub code_block_size: usize,
}

/// A modulation symbol (its bits, most significant first) on a resource
/// element.
#[derive(Debug, Clone, Copy, PartialEq, Eq, Structural)]
pub struct ReSymbol {
    /// Subcarrier index in the grid
    pub subcarrier: u16,
    /// OFDM symbol
    pub symbol: u8,
    /// The symbol's bits, most significant first
    pub value: u8,
}

/// The resource-element contents of a PDSCH.
#[derive(Debug, Clone)]
pub struct PdschMapping {
    /// Data symbols, in mapping order
    pub data: Vec<ReSymbol>,
    /// DMRS resource elements, in mapping order
    pub dmrs: Vec<ReBits>,
}

/// Bits per modulation symbol.
pub open spec fn bits_per_symbol(m: ModulationScheme) -> nat {
    match m {
        ModulationScheme::Qpsk => 2,
        ModulationScheme::Qam16 => 4,
        ModulationScheme::Qam64 => 6,
        ModulationScheme::Qam256 => 8,
    }
}

/// One bit of a CRC-24 long division with generator `poly`.
pub open spec fn crc_poly_step(r: u64, bit: u8, poly: u64) -> u64 {
    let r2 = (r << 1u64) | (bit as u64);
    if r2 & 0x100_0000u64 != 0 {
        r2 ^ poly
    } else {
        r2
    }
}

/// The remainder after the first `i` bits.
pub open spec fn crc_poly_reg(bits: Seq<u8>, poly: u64, i: nat) -> u64
    decreases i,
{
    if i == 0 {
        0
    } else {
        crc_poly_step(crc_poly_reg(bits, poly, (i - 1) as nat), bits[i - 1], poly)
    }
}

/// The remainder after `n` appended zeros.
pub open spec fn crc_poly_flush(r: u64, poly: u64, n: nat) -> u64
    decreases n,
{
    if n == 0 {
        r
    } else {
        crc_poly_step(crc_poly_flush(r, poly, (n - 1) as nat), 0, poly)
    }
}

/// The 24-bit CRC of the bits of `bytes` (MSB first) with `poly`.
pub open spec fn crc24_of_bytes(bytes: Seq<u8>, poly: u64) -> u32 {
    let bits = unpack_bit_values(bytes);
    (crc_poly_flush(crc_poly_reg(bits, poly, bits.len()), poly, 24) & 0xFF_FFFFu64) as u32
}

/// `bytes` followed by the three CRC bytes (most significant first).
pub open spec fn with_crc_bytes(bytes: Seq<u8>, poly: u64) -> Seq<u8> {
    let c = crc24_of_bytes(bytes, poly);
    bytes + seq![(c >> 16u32) as u8, (c >> 8u32) as u8, c as u8]
}

/// The transport block with its CRC-24A when it has more than 3824 bits.
pub open spec fn tb_with_crc(payload: Seq<u8>) -> Seq<u8> {
    if payload.len() * 8 > 3824 {
        with_crc_bytes(payload, 0x1864CFB)
    } else {
        payload
    }
}

/// Largest code block (bits) of a base graph.
pub open spec fn max_cb_bits(bg: u8) -> nat {
    if bg == 1 {
        8448
    } else {
        3840
    }
}

/// Number of code blocks for a transport block of `tb_bits` bits.
pub open spec fn num_code_blocks(tb_bits: nat, bg: u8) -> nat {
    if tb_bits <= max_cb_bits(bg) {
        1
    } else {
        ((tb_bits + max_cb_bits(bg) - 25) as int / (max_cb_bits(bg) - 24) as int) as nat
    }
}

/// Code block size in bits (CB CRCs included when segmented).
pub open spec fn cb_size_bits(tb_bits: nat, bg: u8) -> nat {
    let n = num_code_blocks(tb_bits, bg);
    if n == 1 {
        tb_bits
    } else {
        ((tb_bits + 24 * n + n - 1) as int / n as int) as nat
    }
}

/// Code block `i`: its bytes of the transport block, zero-padded.
pub open spec fn code_block(tb: Seq<u8>, bg: u8, i: nat) -> Seq<u8> {
    let cbb = (cb_size_bits(tb.len() * 8, bg) + 7) / 8;
    Seq::new(cbb, |k: int| if i * cbb + k < tb.len() { tb[i * cbb + k] } else { 0u8 })
}

/// The segmentation can be carried out: every code block starts inside
/// the transport block.
pub open spec fn segmentation_fits(tb: Seq<u8>, bg: u8) -> bool {
    let n = num_code_blocks(tb.len() * 8, bg);
    let cbb = (cb_size_bits(tb.len() * 8, bg) + 7) / 8;
    (n - 1) * cbb <= tb.len()
}

/// Data resource elements: PRBs * 12 on the DMRS symbol (half of them),
/// PRBs * 12 on the others.
pub open spec fn available_res(n_prb: nat, num_symbols: nat) -> nat {
    if num_symbols == 0 {
        0
    } else {
        (n_prb * 12 / 2 + (num_symbols - 1) * (n_prb * 12)) as nat
    }
}

/// The coded bits of all code blocks, concatenated.
pub open spec fn coded_blocks(tb: Seq<u8>, bg: u8, target: nat, rv: u8, i: nat) -> Seq<u8>
    decreases i,
{
    if i == 0 {
        Seq::empty()
    } else {
        let n = num_code_blocks(tb.len() * 8, bg);
        let cb = code_block(tb, bg, (i - 1) as nat);
        let cb2 = if n > 1 { with_crc_bytes(cb, 0x1800063) } else { cb };
        coded_blocks(tb, bg, target, rv, (i - 1) as nat) + pdsch_ldpc_encode_spec(cb2, target, rv)
    }
}

/// The coded transport block of a payload under a configuration.
pub open spec fn pdsch_coded(payload: Seq<u8>, c: PdschConfig) -> Seq<u8> {
    let tb = tb_with_crc(payload);
    let n = num_code_blocks(tb.len() * 8, c.ldpc_base_graph);
    let total_bits = available_res(c.prb_allocation@.len(), c.num_symbols as nat) * bits_per_symbol(c.modulation);
    coded_blocks(tb, c.ldpc_base_graph, total_bits / n, c.rv, n)
}

/// Scrambling of packed bits with the sequence seeded by
/// (rnti * 2^15 + n_id) mod 2^31, repacked.
pub open spec fn pdsch_scrambled(bytes: Seq<u8>, rnti: u16, n_id: u16) -> Seq<u8> {
    let c_init = ((rnti as int * 0x8000 + n_id as int) % 0x8000_0000) as u32;
    let bits = unpack_bit_values(bytes);
    pack_bit_values(Seq::new(bits.len(), |i: int| bits[i] ^ gold_bit_at(dmrs_initial_state(c_init), i as nat)))
}

/// PDSCH scrambling (codeword q = 0) XORs bit i of the payload, most
/// significant bit of each byte first, with bit i of the Gold sequence
/// seeded with c_init = (n_RNTI * 2^15 + q * 2^14 + n_ID) mod 2^31: the
/// sequence that `DmrsSequenceGenerator::new(c_init)` emits.
pub proof fn lemma_pdsch_scrambling_seed(bytes: Seq<u8>, rnti: u16, n_id: u16)
    ensures
        pdsch_scrambled(bytes, rnti, n_id) == pack_bit_values(
            Seq::new(
                8 * bytes.len(),
                |i: int|
                    unpack_bit_values(bytes)[i] ^ gold_bit_at(
                        dmrs_initial_state(((rnti as nat * 32768 + 0nat * 16384 + n_id as nat) % 2147483648) as u32),
                        i as nat,
                    ),
            ),
        ),
{
    let c1 = ((rnti as int * 0x8000 + n_id as int) % 0x8000_0000) as u32;
    let c2 = ((rnti as nat * 32768 + 0nat * 16384 + n_id as nat) % 2147483648) as u32;
    assert(c1 == c2);
    let bits = unpack_bit_values(bytes);
    assert(Seq::new(bits.len(), |i: int| bits[i] ^ gold_bit_at(dmrs_initial_state(c1), i as nat)) =~= Seq::new(
        8 * bytes.len(),
        |i: int| bits[i] ^ gold_bit_at(dmrs_initial_state(c2), i as nat),
    ));
}

/// The modulation symbols: consecutive groups of `bps` bits, most
/// significant first (an incomplete last group is dropped).
pub open spec fn symbol_values(bytes: Seq<u8>, bps: nat) -> Seq<u8> {
    let bits = unpack_bit_values(bytes);
    Seq::new(bits.len() / bps, |s: int| fold_u8(bits, s * bps, (s + 1) * bps))
}

/// Data placement: after the DMRS symbol, each symbol of the allocation
/// takes the PRBs in allocation order, 12 subcarriers each, while symbols
/// remain.
pub open spec fn pdsch_data_res(prbs: Seq<u16>, start: u8, num_symbols: u8, values: Seq<u8>) -> Seq<ReSymbol> {
    let per_symbol = 12 * prbs.len() as int;
    let candidates = if num_symbols >= 1 { (num_symbols - 1) * per_symbol } else { 0 };
    let n = if candidates < values.len() { candidates } else { values.len() as int };
    Seq::new(
        n as nat,
        |k: int|
            ReSymbol {
                subcarrier: (prbs[(k / 12) % prbs.len() as int] * 12 + k % 12) as u16,
                symbol: (start + 1 + k / per_symbol) as u8,
                value: values[k],
            },
    )
}

/// The RB mask of the allocation (RBs below 275).
pub open spec fn allocation_mask(prbs: Seq<u16>) -> Seq<bool> {
    Seq::new(275, |r: int| prbs.contains(r as u16))
}

/// DMRS placement on the first symbol: for each PRB of the allocation, in
/// allocation order and as long as the sequence lasts, subcarriers 0, 2,
/// ..., 10 with consecutive QPSK bit pairs of the mask sequence.
pub open spec fn pdsch_dmrs_res(prbs: Seq<u16>, start: u8, n_id: u16) -> Seq<ReBits> {
    let s = dmrs_initial_state(pdsch_dmrs_cinit(0, start, n_id, false) as u32);
    let bits = dmrs_mask_bits(allocation_mask(prbs), 6, s, 275);
    let cnt = bits.len() / 12;
    let n: int = if cnt < prbs.len() { cnt as int } else { prbs.len() as int };
    Seq::new(
        6 * n as nat,
        |k: int|
            ReBits {
                subcarrier: (prbs[k / 6] * 12 + 2 * (k % 6)) as u16,
                symbol: start,
                b0: bits[2 * k],
                b1: bits[2 * k + 1],
            },
    )
}

/// PDSCH processing for one cell.
#[derive(Clone)]
pub struct PdschProcessor {
    cell_config: Arc<CellConfig>,
}

/// Unpacks bytes into bit values, most significant first.
fn unpack_values(bytes: &Vec<u8>) -> (r: Vec<u8>)
    requires
        8 * bytes@.len() <= usize::MAX,
    ensures
        r@ == unpack_bit_values(bytes@),
{
    let mut bits: Vec<u8> = Vec::new();
    let mut b: usize = 0;
    while b < bytes.len()
        invariant
            b <= bytes@.len(),
            8 * bytes@.len() <= usize::MAX,
            bits@.len() == 8 * b,
            forall|p: int| 0 <= p < 8 * b ==> bits@[p] == unpack_bit_values(bytes@)[p],
        decreases bytes@.len() - b,
    {
        let byte = bytes[b];
        let mut i: usize = 0;
        while i < 8
            invariant
                i <= 8,
                b < bytes@.len(),
                8 * bytes@.len() <= usize::MAX,
                byte == bytes@[b as int],
                bits@.len() == 8 * b + i,
                forall|p: int| 0 <= p < 8 * b + i ==> bits@[p] == unpack_bit_values(bytes@)[p],
            decreases 8 - i,
        {
            proof {
                let p = (8 * b + i) as int;
                assert(p / 8 == b && p % 8 == i) by (nonlinear_arith)
                    requires
                        p == 8 * b + i,
                        i < 8,
                ;
            }
            bits.push((byte >> ((7 - i) as u8)) & 1);
            i = i + 1;
        }
        b = b + 1;
    }
    assert(bits@ =~= unpack_bit_values(bytes@));
    bits
}

/// CRC-24 by long division of the bits (24 zeros appended).
fn crc24_bits(bits: &Vec<u8>, poly: u64) -> (crc: u32)
    ensures
        crc == (crc_poly_flush(crc_poly_reg(bits@, poly, bits@.len()), poly, 24) & 0xFF_FFFFu64) as u32,
{
    let mut remainder: u64 = 0;
    let mut i: usize = 0;
    while i < bits.len()
        invariant
            i <= bits@.len(),
            remainder == crc_poly_reg(bits@, poly, i as nat),
        decreases bits@.len() - i,
    {
        remainder = (remainder << 1u64) | (bits[i] as u64);
        if remainder & 0x100_0000u64 != 0 {
            remainder = remainder ^ poly;
        }
        i = i + 1;
    }
    let ghost r0 = remainder;
    let mut k: u32 = 0;
    while k < 24
        invariant
            k <= 24,
            remainder == crc_poly_flush(r0, poly, k as nat),
        decreases 24 - k,
    {
        remainder = remainder << 1u64;
        proof {
            let r = crc_poly_flush(r0, poly, k as nat);
            assert((r << 1u64) | (0u8 as u64) == r << 1u64) by (bit_vector);
        }
        if remainder & 0x100_0000u64 != 0 {
            remainder = remainder ^ poly;
        }
        k = k + 1;
    }
    (remainder & 0xFF_FFFFu64) as u32
}

/// Appends the three CRC bytes of `bytes`.
fn attach_crc(bytes: &Vec<u8>, poly: u64) -> (r: Vec<u8>)
    requires
        8 * bytes@.len() <= usize::MAX,
    ensures
        r@ == with_crc_bytes(bytes@, poly),
{
    let bits = unpack_values(bytes);
    let crc = crc24_bits(&bits, poly);
    let mut out: Vec<u8> = Vec::new();
    let mut i: usize = 0;
    while i < bytes.len()
        invariant
            i <= bytes@.len(),
            out@ == bytes@.take(i as int),
        decreases bytes@.len() - i,
    {
        out.push(bytes[i]);
        i = i + 1;
        assert(out@ =~= bytes@.take(i as int));
    }
    out.push((crc >> 16u32) as u8);
    out.push((crc >> 8u32) as u8);
    out.push(crc as u8);
    assert(out@ =~= with_crc_bytes(bytes@, poly));
    out
}

impl PdschProcessor {
    /// The cell configuration.
    pub closed spec fn spec_cell(&self) -> CellConfig {
        *self.cell_config
    }

    /// A processor for a cell.
    pub fn new(cell_config: Arc<CellConfig>) -> (p: Self)
        ensures
            p.spec_cell() == *cell_config,
    {
        PdschProcessor { cell_config }
    }

    /// Segments the transport block into code blocks of equal size.
    fn segment_transport_block(&self, tb: &Vec<u8>, base_graph: u8) -> (r: (Vec<Vec<u8>>, usize))
        requires
            256 * tb@.len() + 8448 <= usize::MAX,
            segmentation_fits(tb@, base_graph),
        ensures
            r.0@.len() == num_code_blocks(tb@.len() * 8, base_graph),
            forall|i: int| 0 <= i < r.0@.len() ==> #[trigger] r.0@[i]@ == code_block(tb@, base_graph, i as nat),
            r.1 == cb_size_bits(tb@.len() * 8, base_graph),
            forall|i: int| 0 <= i < r.0@.len() ==> #[trigger] r.0@[i]@.len() <= 32 * tb@.len() + 8,
            r.0@.len() >= 1,
            r.0@.len() <= 8 * tb@.len() + 1,
    {
        let tb_size_bits = tb.len() * 8;
        let max_cb_size: usize = if base_graph == 1 { 8448 } else { 3840 };
        let num_cb: usize = if tb_size_bits <= max_cb_size {
            1
        } else {
            let q = (tb_size_bits + max_cb_size - 25) / (max_cb_size - 24);
            assert(q >= 1) by (nonlinear_arith)
                requires
                    q == (tb_size_bits + max_cb_size - 25) / (max_cb_size - 24) as int,
                    tb_size_bits > max_cb_size,
                    max_cb_size >= 3840,
            ;
            q
        };
        assert(num_cb <= tb_size_bits + 1) by (nonlinear_arith)
            requires
                num_cb == 1 || (num_cb == (tb_size_bits + max_cb_size - 25) / (max_cb_size - 24) as int
                    && tb_size_bits > max_cb_size && max_cb_size >= 3840),
        ;
        let cb_bits: usize = if num_cb == 1 {
            tb_size_bits
        } else {
            assert(24 * num_cb + num_cb <= 25 * (tb_size_bits + 1));
            (tb_size_bits + 24 * num_cb + num_cb - 1) / num_cb
        };
        assert(cb_bits <= 25 * tb_size_bits + 25) by (nonlinear_arith)
            requires
                num_cb >= 1,
                cb_bits == tb_size_bits || cb_bits == (tb_size_bits + 24 * num_cb + num_cb - 1) / (num_cb as int),
                num_cb <= tb_size_bits + 1,
        ;
        let cb_size_bytes = (cb_bits + 7) / 8;
        let mut code_blocks: Vec<Vec<u8>> = Vec::new();
        let mut i: usize = 0;
        while i < num_cb
            invariant
                i <= num_cb,
                256 * tb@.len() + 8448 <= usize::MAX,
                num_cb == num_code_blocks(tb@.len() * 8, base_graph),
                cb_size_bytes == (cb_size_bits(tb@.len() * 8, base_graph) + 7) / 8,
                (num_cb - 1) * cb_size_bytes <= tb@.len(),
                code_blocks@.len() == i,
                cb_size_bytes <= 32 * tb@.len() + 8,
                forall|k: int| 0 <= k < i ==> #[trigger] code_blocks@[k]@ == code_block(tb@, base_graph, k as nat),
                forall|k: int| 0 <= k < i ==> #[trigger] code_blocks@[k]@.len() <= 32 * tb@.len() + 8,
            decreases num_cb - i,
        {
            assert(i * cb_size_bytes <= (num_cb - 1) * cb_size_bytes) by (nonlinear_arith)
                requires
                    i <= num_cb - 1,
                    cb_size_bytes >= 0,
            ;
            assert(i * cb_size_bytes <= tb@.len());
            let start = i * cb_size_bytes;
            let mut cb: Vec<u8> = Vec::new();
            let mut k: usize = 0;
            while k < cb_size_bytes
                invariant
                    k <= cb_size_bytes,
                    start == i * cb_size_bytes,
                    start <= tb@.len(),
                    cb@.len() == k,
                    forall|m: int| 0 <= m < k ==> cb@[m] == (if start + m < tb@.len() { tb@[start + m] } else { 0u8 }),
                decreases cb_size_bytes - k,
            {
                if k < tb.len() - start {
                    cb.push(tb[start + k]);
                } else {
                    cb.push(0);
                }
                k = k + 1;
            }
            assert(cb@ =~= code_block(tb@, base_graph, i as nat));
            code_blocks.push(cb);
            i = i + 1;
        }
        (code_blocks, cb_bits)
    }
}

/// `v` occurs in `s`.
fn contains_u16(s: &Vec<u16>, v: u16) -> (r: bool)
    ensures
        r == s@.contains(v),
{
    let mut i: usize = 0;
    while i < s.len()
        invariant
            i <= s@.len(),
            forall|k: int| 0 <= k < i ==> s@[k] != v,
        decreases s@.len() - i,
    {
        if s[i] == v {
            assert(s@[i as int] == v);
            return true;
        }
        i = i + 1;
    }
    false
}

impl PdschProcessor {
    /// Data resource elements of the allocation.
    fn calculate_available_res(&self, config: &PdschConfig) -> (r: usize)
        requires
            config.start_symbol + config.num_symbols <= 255,
            12 * config.prb_allocation@.len() * 255 <= usize::MAX,
        ensures
            r == available_res(config.prb_allocation@.len(), config.num_symbols as nat),
            r <= 12 * config.prb_allocation@.len() * 255,
    {
        let p = config.prb_allocation.len();
        let mut total: usize = 0;
        let mut t: u8 = 0;
        while t < config.num_symbols
            invariant
                t <= config.num_symbols,
                p == config.prb_allocation@.len(),
                12 * p * 255 <= usize::MAX,
                config.start_symbol + config.num_symbols <= 255,
                total == available_res(p as nat, t as nat),
                total <= 12 * p * t,
            decreases config.num_symbols - t,
        {
            let symbol = config.start_symbol + t;
            proof {
                assert(12 * p * t + 12 * p <= 12 * p * 255) by (nonlinear_arith)
                    requires
                        t < 255,
                ;
                assert(12 * p * t + 12 * p == 12 * p * (t + 1)) by (nonlinear_arith);
                assert((t as int - 1) * (p * 12) + p * 12 == (t as int) * (p * 12)) by (nonlinear_arith);
            }
            if symbol != config.start_symbol {
                total = total + p * 12;
            } else {
                total = total + p * 12 / 2;
            }
            t = t + 1;
        }
        proof {
            assert(12 * p * t <= 12 * p * 255) by (nonlinear_arith)
                requires
                    t <= 255,
            ;
        }
        total
    }

    /// CRC, segmentation and LDPC coding of the transport block.
    fn process_transport_block(&self, payload: &[u8], config: &PdschConfig) -> (r: TransportBlockResult)
        requires
            96 * config.prb_allocation@.len() * 255 + 256 * (payload@.len() + 3) + 8 * 66 * 384 <= usize::MAX,
            segmentation_fits(tb_with_crc(payload@), config.ldpc_base_graph),
            config.start_symbol + config.num_symbols <= 255,
        ensures
            r.encoded_bits@ == pdsch_coded(payload@, *config),
            8 * r.encoded_bits@.len() <= 96 * config.prb_allocation@.len() * 255 + 8 * (8 * (payload@.len() + 3) + 1),
            r.num_code_blocks == num_code_blocks(tb_with_crc(payload@).len() * 8, config.ldpc_base_graph),
            r.code_block_size == cb_size_bits(tb_with_crc(payload@).len() * 8, config.ldpc_base_graph),
    {
        let mut pv: Vec<u8> = Vec::new();
        let mut i: usize = 0;
        while i < payload.len()
            invariant
                i <= payload@.len(),
                pv@ == payload@.take(i as int),
            decreases payload@.len() - i,
        {
            pv.push(payload[i]);
            i = i + 1;
            assert(pv@ =~= payload@.take(i as int));
        }
        assert(payload@.take(payload@.len() as int) =~= payload@);
        let tb = if payload.len() * 8 > 3824 {
            attach_crc(&pv, 0x1864CFB)
        } else {
            pv
        };
        assert(tb@ == tb_with_crc(payload@));
        let (code_blocks, cb_size) = self.segment_transport_block(&tb, config.ldpc_base_graph);
        let total_res = self.calculate_available_res(config);
        let bps: usize = match config.modulation {
            ModulationScheme::Qpsk => 2,
            ModulationScheme::Qam16 => 4,
            ModulationScheme::Qam64 => 6,
            ModulationScheme::Qam256 => 8,
        };
        proof {
            assert(total_res * bps <= 96 * config.prb_allocation@.len() * 255) by (nonlinear_arith)
                requires
                    total_res <= 12 * config.prb_allocation@.len() * 255,
                    bps <= 8,
            ;
        }
        let total_bits = total_res * bps;
        let n = code_blocks.len();
        let bits_per_cb = total_bits / n;
        let ghost tbs = tb@;
        let ghost bg = config.ldpc_base_graph;
        let encoder = PdschLdpcEncoder::new();
        let mut all: Vec<u8> = Vec::new();
        let mut cb_idx: usize = 0;
        while cb_idx < n
            invariant
                cb_idx <= n,
                n == code_blocks@.len(),
                n == num_code_blocks(tbs.len() * 8, bg),
                n >= 1,
                tbs == tb@,
                bg == config.ldpc_base_graph,
                256 * tbs.len() + 8448 <= usize::MAX,
                forall|k: int| 0 <= k < n ==> #[trigger] code_blocks@[k]@ == code_block(tbs, bg, k as nat),
                forall|k: int| 0 <= k < n ==> #[trigger] code_blocks@[k]@.len() <= 32 * tbs.len() + 8,
                bits_per_cb <= 96 * config.prb_allocation@.len() * 255,
                96 * config.prb_allocation@.len() * 255 + 8 * 66 * 384 <= usize::MAX,
                all@ == coded_blocks(tbs, bg, bits_per_cb as nat, config.rv, cb_idx as nat),
                all@.len() == cb_idx * ((bits_per_cb + 7) / 8),
            decreases n - cb_idx,
        {
            let cb = &code_blocks[cb_idx];
            let cb_with_crc = if n > 1 {
                attach_crc(cb, 0x1800063)
            } else {
                cb.clone()
            };
            proof {
                if n <= 1 {
                    assert(cb_with_crc@ == cb@);
                }
            }
            let rate_matched = encoder.encode(cb_with_crc.as_slice(), bits_per_cb, config.rv);
            let ghost before = all@;
            let mut j: usize = 0;
            while j < rate_matched.len()
                invariant
                    j <= rate_matched@.len(),
                    all@ == before + rate_matched@.take(j as int),
                decreases rate_matched@.len() - j,
            {
                all.push(rate_matched[j]);
                j = j + 1;
                assert(all@ =~= before + rate_matched@.take(j as int));
            }
            assert(rate_matched@.take(rate_matched@.len() as int) =~= rate_matched@);
            assert(cb_idx * ((bits_per_cb + 7) / 8) + (bits_per_cb + 7) / 8 == (cb_idx + 1) * ((bits_per_cb + 7) / 8)) by (nonlinear_arith);
            cb_idx = cb_idx + 1;
        }
        proof {
            let w = (bits_per_cb + 7) / 8;
            assert(n * bits_per_cb <= total_bits) by (nonlinear_arith)
                requires
                    bits_per_cb == total_bits as int / (n as int),
                    n >= 1,
            ;
            assert(8 * (n * w) <= n * bits_per_cb + 7 * n) by (nonlinear_arith)
                requires
                    w == (bits_per_cb + 7) / 8,
                    n >= 0,
            ;
        }
        TransportBlockResult { encoded_bits: all, num_code_blocks: n, code_block_size: cb_size }
    }

    /// Scrambles the coded bits with the sequence of the RNTI and identity.
    fn scramble_bits(&self, bytes: &Vec<u8>, config: &PdschConfig) -> (r: Vec<u8>)
        requires
            8 * bytes@.len() <= usize::MAX,
        ensures
            r@ == pdsch_scrambled(bytes@, config.rnti, config.n_id),
    {
        let q: u32 = 0;
        assert(q << 14u32 == 0u32) by (bit_vector)
            requires
                q == 0,
        ;
        let raw = (config.rnti as u32) * 0x8000 + (q << 14u32) + config.n_id as u32;
        let c_init = raw & 0x7FFF_FFFF;
        assert(c_init == raw % 0x8000_0000) by (bit_vector)
            requires
                c_init == raw & 0x7FFF_FFFFu32,
        ;
        let mut generator = DmrsSequenceGenerator::new(c_init);
        let ghost s0 = generator.state();
        let bits = unpack_values(bytes);
        let mut sc: Vec<u8> = Vec::new();
        let mut i: usize = 0;
        while i < bits.len()
            invariant
                i <= bits@.len(),
                s0 == dmrs_initial_state(c_init),
                c_init == ((config.rnti as int * 0x8000 + config.n_id as int) % 0x8000_0000) as u32,
                generator.state() == gold_advance(s0, i as nat),
                sc@.len() == i,
                forall|m: int| 0 <= m < i ==> sc@[m] == bits@[m] ^ gold_bit_at(s0, m as nat),
            decreases bits@.len() - i,
        {
            let c = generator.next_bit();
            proof {
                lemma_gold_advance_add(s0, i as nat, 1);
            }
            sc.push(bits[i] ^ c);
            i = i + 1;
        }
        assert(sc@ =~= Seq::new(bits@.len(), |m: int| bits@[m] ^ gold_bit_at(s0, m as nat)));
        pack_values(&sc)
    }

    /// Groups the bits into modulation symbols.
    fn modulate_bits(&self, bytes: &Vec<u8>, modulation: ModulationScheme) -> (r: Vec<u8>)
        requires
            8 * bytes@.len() <= usize::MAX,
        ensures
            r@ == symbol_values(bytes@, bits_per_symbol(modulation)),
    {
        let bps: usize = match modulation {
            ModulationScheme::Qpsk => 2,
            ModulationScheme::Qam16 => 4,
            ModulationScheme::Qam64 => 6,
            ModulationScheme::Qam256 => 8,
        };
        let bits = unpack_values(bytes);
        let mut out: Vec<u8> = Vec::new();
        let mut buffer: u8 = 0;
        let mut count: usize = 0;
        let mut p: usize = 0;
        while p < bits.len()
            invariant
                p <= bits@.len(),
                bps == bits_per_symbol(modulation),
                bps >= 2,
                bits@ == unpack_bit_values(bytes@),
                count < bps,
                p == out@.len() * bps + count,
                buffer == fold_u8(bits@, (out@.len() * bps) as int, p as int),
                forall|s: int| 0 <= s < out@.len() ==> out@[s] == fold_u8(bits@, s * bps, (s + 1) * bps),
            decreases bits@.len() - p,
        {
            buffer = (buffer << 1u8) | bits[p];
            count = count + 1;
            p = p + 1;
            if count == bps {
                proof {
                    assert((out@.len() + 1) * bps == out@.len() * bps + bps) by (nonlinear_arith);
                }
                out.push(buffer);
                buffer = 0;
                count = 0;
            }
        }
        proof {
            let n = out@.len();
            vstd::arithmetic::div_mod::lemma_fundamental_div_mod_converse(p as int, bps as int, n as int, count as int);
            assert(p == n * bps + count);
        }
        assert(out@ =~= symbol_values(bytes@, bits_per_symbol(modulation)));
        out
    }
}

impl PdschProcessor {
    /// Places the modulation symbols: every symbol after the DMRS symbol,
    /// PRBs in allocation order, 12 subcarriers each.
    fn map_to_resource_grid(&self, values: &Vec<u8>, config: &PdschConfig) -> (r: Vec<ReSymbol>)
        requires
            config.start_symbol + config.num_symbols <= 255,
            forall|a: int| 0 <= a < config.prb_allocation@.len() ==> config.prb_allocation@[a] * 12 + 12 <= 0xFFFF,
            12 * config.prb_allocation@.len() * 255 <= usize::MAX,
        ensures
            r@ == pdsch_data_res(config.prb_allocation@, config.start_symbol, config.num_symbols, values@),
    {
        let prbs = &config.prb_allocation;
        let np = prbs.len();
        let start = config.start_symbol;
        let num = config.num_symbols;
        let len = values.len();
        let ghost per = 12 * np as int;
        let ghost target = pdsch_data_res(prbs@, start, num, values@);
        let mut out: Vec<ReSymbol> = Vec::new();
        let mut symbol_idx: usize = 0;
        if num == 0 {
            assert(out@ =~= target);
            return out;
        }
        let mut t: u8 = 1;
        while t < num
            invariant
                1 <= t <= num,
                np == prbs@.len(),
                per == 12 * np as int,
                start == config.start_symbol,
                num == config.num_symbols,
                start + num <= 255,
                len == values@.len(),
                prbs == &config.prb_allocation,
                target == pdsch_data_res(prbs@, start, num, values@),
                forall|a: int| 0 <= a < np ==> prbs@[a] * 12 + 12 <= 0xFFFF,
                symbol_idx == out@.len(),
                out@.len() == (if (t - 1) * per < len { (t - 1) * per } else { len as int }),
                forall|m: int| 0 <= m < out@.len() ==> out@[m] == target[m],
            decreases num - t,
        {
            let ofdm_symbol = start + t;
            let mut pi: usize = 0;
            while pi < np
                invariant
                    pi <= np,
                    1 <= t < num,
                    ofdm_symbol == start + t,
                    np == prbs@.len(),
                    per == 12 * np as int,
                    start == config.start_symbol,
                    num == config.num_symbols,
                    start + num <= 255,
                    len == values@.len(),
                    prbs == &config.prb_allocation,
                    target == pdsch_data_res(prbs@, start, num, values@),
                    forall|a: int| 0 <= a < np ==> prbs@[a] * 12 + 12 <= 0xFFFF,
                    symbol_idx == out@.len(),
                    out@.len() == (if (t - 1) * per + 12 * pi < len { (t - 1) * per + 12 * pi } else { len as int }),
                    forall|m: int| 0 <= m < out@.len() ==> out@[m] == target[m],
                decreases np - pi,
            {
                let prb = prbs[pi];
                let mut sc: usize = 0;
                while sc < 12
                    invariant
                        sc <= 12,
                        pi < np,
                        prb == prbs@[pi as int],
                        1 <= t < num,
                        ofdm_symbol == start + t,
                        np == prbs@.len(),
                        per == 12 * np as int,
                        start == config.start_symbol,
                        num == config.num_symbols,
                        start + num <= 255,
                        len == values@.len(),
                        target == pdsch_data_res(prbs@, start, num, values@),
                        prb * 12 + 12 <= 0xFFFF,
                        symbol_idx == out@.len(),
                        out@.len() == (if (t - 1) * per + 12 * pi + sc < len { (t - 1) * per + 12 * pi + sc } else { len as int }),
                        forall|m: int| 0 <= m < out@.len() ==> out@[m] == target[m],
                    decreases 12 - sc,
                {
                    if symbol_idx < len {
                        let ghost k = out@.len() as int;
                        proof {
                            let q1 = (t - 1) * (np as int) + pi;
                            assert(k == q1 * 12 + sc && k == (t - 1) * per + 12 * pi + sc && 0 <= 12 * pi + sc < per) by (nonlinear_arith)
                                requires
                                    k == (t - 1) * per + 12 * pi + sc,
                                    per == 12 * np,
                                    q1 == (t - 1) * np + pi,
                                    pi < np,
                                    sc < 12,
                            ;
                            vstd::arithmetic::div_mod::lemma_fundamental_div_mod_converse(k, per, (t - 1) as int, 12 * pi + sc);
                            vstd::arithmetic::div_mod::lemma_fundamental_div_mod_converse(k, 12, q1, sc as int);
                            vstd::arithmetic::div_mod::lemma_fundamental_div_mod_converse(q1, np as int, (t - 1) as int, pi as int);
                            assert(k < (num - 1) * per) by (nonlinear_arith)
                                requires
                                    k == (t - 1) * per + 12 * pi + sc,
                                    12 * pi + sc < per,
                                    t < num,
                                    per >= 0,
                            ;
                        }
                        out.push(ReSymbol { subcarrier: prb * 12 + sc as u16, symbol: ofdm_symbol, value: values[symbol_idx] });
                        symbol_idx = symbol_idx + 1;
                    }
                    sc = sc + 1;
                }
                pi = pi + 1;
            }
            assert((t - 1) * per + 12 * np == t * per) by (nonlinear_arith)
                requires
                    per == 12 * np,
            ;
            t = t + 1;
        }
        proof {
            assert(out@.len() == target.len());
        }
        assert(out@ =~= target);
        out
    }

    /// The DMRS resource elements of the first PDSCH symbol (type 1, port 0).
    fn generate_pdsch_dmrs(&self, config: &PdschConfig) -> (r: Vec<ReBits>)
        requires
            config.num_symbols >= 1,
            forall|a: int| 0 <= a < config.prb_allocation@.len() ==> config.prb_allocation@[a] * 12 + 12 <= 0xFFFF,
        ensures
            r@ == pdsch_dmrs_res(config.prb_allocation@, config.start_symbol, config.n_id),
    {
        let (positions, _weights) = crate::layers::phy::dmrs::get_pdsch_dmrs_params(crate::layers::phy::dmrs::DmrsType::Type1, 0);
        assert(positions@ =~= Seq::new(6, |i: int| (2 * i) as u8));
        let symbol = config.start_symbol;
        let c_init = calculate_pdsch_dmrs_cinit(0, symbol, config.n_id, false);
        let mut generator = DmrsSequenceGenerator::new(c_init);
        let ghost s0 = generator.state();
        let mut mask: Vec<bool> = Vec::new();
        let mut r: u16 = 0;
        while r < 275
            invariant
                r <= 275,
                mask@.len() == r,
                forall|k: int| 0 <= k < r ==> mask@[k] == config.prb_allocation@.contains(k as u16),
            decreases 275 - r,
        {
            mask.push(contains_u16(&config.prb_allocation, r));
            r = r + 1;
        }
        assert(mask@ =~= allocation_mask(config.prb_allocation@));
        let bits = generate_dmrs_bits(mask.as_slice(), 0, 6, &mut generator);
        proof {
            crate::layers::phy::dmrs::lemma_dmrs_mask_bits_len(mask@, 6, s0, 275);
        }
        let ghost target = pdsch_dmrs_res(config.prb_allocation@, config.start_symbol, config.n_id);
        let nbits = bits.len();
        let mut out: Vec<ReBits> = Vec::new();
        let mut dmrs_idx: usize = 0;
        let mut a: usize = 0;
        while a < config.prb_allocation.len()
            invariant
                a <= config.prb_allocation@.len(),
                nbits == bits@.len(),
                nbits % 12 == 0,
                nbits <= 12 * 275,
                positions@ == Seq::new(6, |i: int| (2 * i) as u8),
                s0 == dmrs_initial_state(pdsch_dmrs_cinit(0, config.start_symbol, config.n_id, false) as u32),
                bits@ == dmrs_mask_bits(allocation_mask(config.prb_allocation@), 6, s0, 275),
                target == pdsch_dmrs_res(config.prb_allocation@, config.start_symbol, config.n_id),
                forall|k: int| 0 <= k < config.prb_allocation@.len() ==> config.prb_allocation@[k] * 12 + 12 <= 0xFFFF,
                symbol == config.start_symbol,
                dmrs_idx == 6 * (if a < nbits / 12 { a as int } else { (nbits / 12) as int }),
                out@.len() == dmrs_idx,
                forall|m: int| 0 <= m < out@.len() ==> out@[m] == target[m],
            decreases config.prb_allocation@.len() - a,
        {
            let prb = config.prb_allocation[a];
            if dmrs_idx + 6 <= nbits / 2 {
                proof {
                    assert(a < nbits / 12);
                }
                let mut pos_idx: usize = 0;
                while pos_idx < 6
                    invariant
                        pos_idx <= 6,
                        a < config.prb_allocation@.len(),
                        prb == config.prb_allocation@[a as int],
                        prb * 12 + 12 <= 0xFFFF,
                        nbits == bits@.len(),
                        dmrs_idx == 6 * a,
                        dmrs_idx + 6 <= nbits / 2,
                        positions@ == Seq::new(6, |i: int| (2 * i) as u8),
                        target == pdsch_dmrs_res(config.prb_allocation@, config.start_symbol, config.n_id),
                        bits@ == dmrs_mask_bits(allocation_mask(config.prb_allocation@), 6, s0, 275),
                        s0 == dmrs_initial_state(pdsch_dmrs_cinit(0, config.start_symbol, config.n_id, false) as u32),
                        symbol == config.start_symbol,
                        nbits % 12 == 0,
                        a < nbits / 12,
                        out@.len() == dmrs_idx + pos_idx,
                        forall|m: int| 0 <= m < out@.len() ==> out@[m] == target[m],
                    decreases 6 - pos_idx,
                {
                    let k = positions[pos_idx];
                    let e = dmrs_idx + pos_idx;
                    proof {
                        let kk = e as int;
                        assert(kk / 6 == a && kk % 6 == pos_idx) by (nonlinear_arith)
                            requires
                                kk == 6 * a + pos_idx,
                                pos_idx < 6,
                        ;
                        let cnt = nbits / 12;
                        let nn: int = if cnt < config.prb_allocation@.len() { cnt as int } else { config.prb_allocation@.len() as int };
                        assert(a < nn);
                        assert(kk < 6 * nn) by (nonlinear_arith)
                            requires
                                kk == 6 * a + pos_idx,
                                pos_idx < 6,
                                a < nn,
                        ;
                        assert(target.len() == 6 * nn);
                        assert(2 * kk + 1 < nbits) by (nonlinear_arith)
                            requires
                                kk == 6 * a + pos_idx,
                                pos_idx < 6,
                                a < nbits / 12,
                                nbits % 12 == 0,
                        ;
                        assert(target[kk] == ReBits {
                            subcarrier: (prb * 12 + 2 * pos_idx) as u16,
                            symbol: config.start_symbol,
                            b0: bits@[2 * kk],
                            b1: bits@[2 * kk + 1],
                        });
                    }
                    out.push(ReBits { subcarrier: prb * 12 + k as u16, symbol, b0: bits[2 * e], b1: bits[2 * e + 1] });
                    pos_idx = pos_idx + 1;
                }
                dmrs_idx = dmrs_idx + 6;
            }
            a = a + 1;
        }
        proof {
            assert(out@.len() == target.len());
        }
        assert(out@ =~= target);
        out
    }

    /// The resource-element contents of the PDSCH carrying SIB1: the
    /// payload is coded (CRC, segmentation, LDPC, rate matching to the
    /// available resource elements), scrambled, grouped into modulation
    /// symbols and placed after the DMRS symbol; the DMRS bits go on the
    /// even subcarriers of the first symbol.
    pub fn process_sib1_pdsch(&self, sib1_payload: &[u8], config: &PdschConfig) -> (m: PdschMapping)
        requires
            96 * config.prb_allocation@.len() * 255 + 256 * (sib1_payload@.len() + 3) + 8 * 66 * 384
                <= usize::MAX,
            segmentation_fits(tb_with_crc(sib1_payload@), config.ldpc_base_graph),
            config.start_symbol + config.num_symbols <= 255,
            forall|a: int| 0 <= a < config.prb_allocation@.len() ==> config.prb_allocation@[a] * 12 + 12 <= 0xFFFF,
        ensures
            m.data@ == pdsch_data_res(
                config.prb_allocation@,
                config.start_symbol,
                config.num_symbols,
                symbol_values(
                    pdsch_scrambled(pdsch_coded(sib1_payload@, *config), config.rnti, config.n_id),
                    bits_per_symbol(config.modulation),
                ),
            ),
            config.num_symbols >= 1 ==> m.dmrs@ == pdsch_dmrs_res(config.prb_allocation@, config.start_symbol, config.n_id),
            config.num_symbols == 0 ==> m.dmrs@.len() == 0,
    {
        let tb_result = self.process_transport_block(sib1_payload, config);
        let scrambled = self.scramble_bits(&tb_result.encoded_bits, config);
        let values = self.modulate_bits(&scrambled, config.modulation);
        let data = self.map_to_resource_grid(&values, config);
        let dmrs = if config.num_symbols >= 1 {
            self.generate_pdsch_dmrs(config)
        } else {
            Vec::new()
        };
        PdschMapping { data, dmrs }
    }
}

/// Whether the code blocks of a payload of `payload_len` bytes (with its
/// transport block CRC when one is attached) fit in the transport block as
/// the segmentation lays them out.
pub fn pdsch_segmentation_fits(payload_len: usize, base_graph: u8) -> (r: bool)
    requires
        256 * (payload_len + 3) <= usize::MAX,
    ensures
        forall|p: Seq<u8>| p.len() == payload_len ==> (r == segmentation_fits(#[trigger] tb_with_crc(p), base_graph)),
{
    let tb_len: usize = if payload_len * 8 > 3824 {
        payload_len + 3
    } else {
        payload_len
    };
    let bits = tb_len * 8;
    let max: usize = if base_graph == 1 {
        8448
    } else {
        3840
    };
    let n: usize = if bits <= max {
        1
    } else {
        let q = (bits + max - 25) / (max - 24);
        assert(1 <= q <= bits) by (nonlinear_arith)
            requires
                q == (bits + max - 25) / (max - 24),
                max >= 3840,
                bits > max,
        ;
        q
    };
    let cb: usize = if n == 1 {
        bits
    } else {
        assert(bits + 24 * n + n - 1 <= 26 * bits) by (nonlinear_arith)
            requires
                n <= bits,
                n >= 1,
        ;
        (bits + 24 * n + n - 1) / n
    };
    let cbb = (cb + 7) / 8;
    let r = match (n - 1).checked_mul(cbb) {
        Some(v) => v <= tb_len,
        None => false,
    };
    assert forall|p: Seq<u8>| p.len() == payload_len implies (r == segmentation_fits(
        #[trigger] tb_with_crc(p),
        base_graph,
    )) by {
        assert(tb_with_crc(p).len() == tb_len);
    }
    r
}


/// Bit-level facts behind the agreement of the bit-serial CRC-24A division
/// with the byte-wise one.
proof fn lemma_crc24a_bit_facts(r1: u64, r2: u64, b: u8, c: u32, d: u8, s: u8, k: u64)
    by (bit_vector)
    ensures
        r1 < 0x1000000 && r2 < 0x1000000 ==> crc_poly_step(r1 ^ r2, 0, 0x1864CFBu64) == crc_poly_step(
            r1,
            0,
            0x1864CFBu64,
        ) ^ crc_poly_step(r2, 0, 0x1864CFBu64),
        r1 < 0x1000000 ==> crc_poly_step(r1, 0, 0x1864CFBu64) < 0x1000000,
        r1 < 0x1000000 && b <= 1 ==> crc_poly_step(r1, b, 0x1864CFBu64) == crc_poly_step(r1, 0, 0x1864CFBu64) ^ (
        b as u64),
        r1 < 0x800000 ==> crc_poly_step(r1, 0, 0x1864CFBu64) == r1 << 1u64,
        c < 0x1000000 ==> (if c & 0x800000 != 0 {
            (c << 1u32) ^ 0x1864CFBu32
        } else {
            c << 1u32
        }) as u64 == crc_poly_step(c as u64, 0, 0x1864CFBu64),
        c < 0x1000000 ==> (c ^ ((d as u32) << 16u32)) < 0x1000000 && (c ^ ((d as u32) << 16u32)) as u64 == (c as u64)
            ^ ((d as u64) << 16u64),
        s < 8 ==> ((((d >> ((s + 1) as u8)) as u64) << 1u64) ^ (((d >> s) & 1u8) as u64)) == (d >> s) as u64,
        k < 16 ==> ((d as u64) << k) < 0x800000 && (((d as u64) << k) << 1u64) == ((d as u64) << ((k + 1) as u64)),
        (d >> 8u8) == 0u8,
        (d >> 0u8) == d,
        ((d >> s) & 1u8) <= 1,
        (d as u64) << 0u64 == d as u64,
        c < 0x1000000 ==> ((c as u64) & 0xFF_FFFFu64) as u32 == c & 0xFFFFFF,
        r1 ^ 0u64 == r1,
        r1 < 0x1000000 && r2 < 0x1000000 ==> (r1 ^ r2) < 0x1000000,
        (r1 ^ r2) ^ k == r1 ^ (r2 ^ k),
        ((d as u64) << 16u64) < 0x1000000,
        0u64 << 1u64 == 0u64,
{
}

/// Zero shifts of the bit-serial division are linear and stay below 2^24.
proof fn lemma_crc_flush_xor(r1: u64, r2: u64, n: nat)
    requires
        r1 < 0x1000000,
        r2 < 0x1000000,
    ensures
        crc_poly_flush(r1 ^ r2, 0x1864CFBu64, n) == crc_poly_flush(r1, 0x1864CFBu64, n) ^ crc_poly_flush(
            r2,
            0x1864CFBu64,
            n,
        ),
        crc_poly_flush(r1, 0x1864CFBu64, n) < 0x1000000,
    decreases n,
{
    if n > 0 {
        let m = (n - 1) as nat;
        lemma_crc_flush_xor(r1, r2, m);
        lemma_crc_flush_xor(r2, r1, m);
        let f1 = crc_poly_flush(r1, 0x1864CFBu64, m);
        let f2 = crc_poly_flush(r2, 0x1864CFBu64, m);
        lemma_crc24a_bit_facts(f1, f2, 0, 0, 0, 0, 0);
    }
}

/// Zero shifts compose.
proof fn lemma_crc_flush_add(r: u64, a: nat, b: nat)
    ensures
        crc_poly_flush(crc_poly_flush(r, 0x1864CFBu64, a), 0x1864CFBu64, b) == crc_poly_flush(r, 0x1864CFBu64, a + b),
    decreases b,
{
    if b > 0 {
        lemma_crc_flush_add(r, a, (b - 1) as nat);
    }
}

/// Shifting a byte by up to 16 places never reaches the generator.
proof fn lemma_crc_flush_byte(d: u8, k: nat)
    requires
        k <= 16,
    ensures
        crc_poly_flush(d as u64, 0x1864CFBu64, k) == (d as u64) << (k as u64),
    decreases k,
{
    if k == 0 {
        lemma_crc24a_bit_facts(0, 0, 0, 0, d, 0, 0);
    } else {
        let m = (k - 1) as nat;
        lemma_crc_flush_byte(d, m);
        lemma_crc24a_bit_facts(0, 0, 0, 0, d, 0, m as u64);
        lemma_crc24a_bit_facts((d as u64) << (m as u64), 0, 0, 0, d, 0, m as u64);
    }
}

/// The byte-wise register shift equals the bit-serial zero shift.
proof fn lemma_crc24_shift_is_flush(c: u32, n: nat)
    requires
        c < 0x1000000,
    ensures
        crc24_shift(c, n) < 0x1000000,
        crc24_shift(c, n) as u64 == crc_poly_flush(c as u64, 0x1864CFBu64, n),
    decreases n,
{
    if n > 0 {
        let m = (n - 1) as nat;
        lemma_crc24_shift_is_flush(c, m);
        let x = crc24_shift(c, m);
        lemma_crc24a_bit_facts(x as u64, 0, 0, x, 0, 0, 0);
    }
}

/// Within byte `j`, after `t` of its bits the bit-serial register is the
/// register before the byte shifted `t` times, XOR the bits read so far.
proof fn lemma_crc_byte_steps(bytes: Seq<u8>, j: nat, t: nat)
    requires
        j < bytes.len(),
        t <= 8,
        crc_poly_reg(unpack_bit_values(bytes), 0x1864CFBu64, 8 * j) < 0x1000000,
    ensures
        crc_poly_reg(unpack_bit_values(bytes), 0x1864CFBu64, 8 * j + t) == crc_poly_flush(
            crc_poly_reg(unpack_bit_values(bytes), 0x1864CFBu64, 8 * j),
            0x1864CFBu64,
            t,
        ) ^ ((bytes[j as int] >> ((8 - t) as u8)) as u64),
        crc_poly_reg(unpack_bit_values(bytes), 0x1864CFBu64, 8 * j + t) < 0x1000000,
    decreases t,
{
    let bits = unpack_bit_values(bytes);
    let r0 = crc_poly_reg(bits, 0x1864CFBu64, 8 * j);
    let d = bytes[j as int];
    if t == 0 {
        lemma_crc24a_bit_facts(r0, 0, 0, 0, d, 0, 0);
    } else {
        let u = (t - 1) as nat;
        lemma_crc_byte_steps(bytes, j, u);
        let prev = crc_poly_reg(bits, 0x1864CFBu64, 8 * j + u);
        let f = crc_poly_flush(r0, 0x1864CFBu64, u);
        let v = (d >> ((8 - u) as u8)) as u64;
        let p = 8 * j + u;
        assert(p / 8 == j && p % 8 == u) by (nonlinear_arith)
            requires
                p == 8 * j + u,
                u < 8,
        ;
        assert(p < 8 * bytes.len()) by (nonlinear_arith)
            requires
                p == 8 * j + u,
                u < 8,
                j < bytes.len(),
        ;
        let sh = (7 - u) as u8;
        assert(bits[p as int] == (d >> sh) & 1u8);
        let bit = bits[p as int];
        lemma_crc_flush_xor(r0, 0, u);
        lemma_crc24a_bit_facts(prev, 0, bit, 0, d, sh, 0);
        lemma_crc24a_bit_facts(f, v, bit, 0, d, sh, 0);
        lemma_crc24a_bit_facts(v, 0, bit, 0, d, sh, 0);
        assert(((sh + 1) as u8) == ((8 - u) as u8));
        // prev == f ^ v; step(prev, bit) == step(f, 0) ^ step(v, 0) ^ bit
        assert(crc_poly_reg(bits, 0x1864CFBu64, 8 * j + t) == crc_poly_step(prev, bit, 0x1864CFBu64));
        assert(crc_poly_step(f, 0, 0x1864CFBu64) == crc_poly_flush(r0, 0x1864CFBu64, t));
        lemma_crc24a_bit_facts(crc_poly_step(f, 0, 0x1864CFBu64), v << 1u64, 0, 0, d, sh, bit as u64);
        lemma_crc24a_bit_facts(crc_poly_step(prev, 0, 0x1864CFBu64), bit as u64, 0, 0, d, sh, 0);
    }
}

/// After whole bytes, the bit-serial register flushed with 24 zeros is the
/// byte-wise CRC register.
proof fn lemma_crc_bytes_prefix(bytes: Seq<u8>, j: nat)
    requires
        j <= bytes.len(),
    ensures
        crc_poly_reg(unpack_bit_values(bytes), 0x1864CFBu64, 8 * j) < 0x1000000,
        crc24_reg(bytes, j) < 0x1000000,
        crc_poly_flush(crc_poly_reg(unpack_bit_values(bytes), 0x1864CFBu64, 8 * j), 0x1864CFBu64, 24) == crc24_reg(
            bytes,
            j,
        ) as u64,
    decreases j,
{
    let bits = unpack_bit_values(bytes);
    if j == 0 {
        lemma_crc_flush_xor(0, 0, 24);
        assert(crc_poly_flush(0, 0x1864CFBu64, 24) == 0) by {
            lemma_crc_flush_zero(24);
        }
    } else {
        let i = (j - 1) as nat;
        lemma_crc_bytes_prefix(bytes, i);
        let a = crc_poly_reg(bits, 0x1864CFBu64, 8 * i);
        let c = crc24_reg(bytes, i);
        let d = bytes[i as int];
        lemma_crc_byte_steps(bytes, i, 8);
        lemma_crc24a_bit_facts(0, 0, 0, c, d, 0, 0);
        assert(8 * i + 8 == 8 * j);
        let a8 = crc_poly_flush(a, 0x1864CFBu64, 8);
        lemma_crc_flush_xor(a, 0, 8);
        lemma_crc_flush_xor(a8, d as u64, 24);
        lemma_crc_flush_add(a, 8, 24);
        lemma_crc_flush_add(a, 24, 8);
        lemma_crc_flush_byte(d, 16);
        lemma_crc_flush_add(d as u64, 16, 8);
        let dd = (d as u64) << 16u64;
        lemma_crc24a_bit_facts(0, 0, 0, 0, d, 0, 0);
        lemma_crc_flush_xor(c as u64, dd, 8);
        let x = c ^ ((d as u32) << 16u32);
        lemma_crc24_shift_is_flush(x, 8);
    }
}

/// The zero register stays zero.
proof fn lemma_crc_flush_zero(n: nat)
    ensures
        crc_poly_flush(0, 0x1864CFBu64, n) == 0,
    decreases n,
{
    if n > 0 {
        lemma_crc_flush_zero((n - 1) as nat);
        lemma_crc24a_bit_facts(0, 0, 0, 0, 0, 0, 0);
    }
}

/// The transport-block CRC computed bit by bit (CRC-24A, generator
/// 0x1864CFB, zero initial value) equals the byte-wise CRC-24 of the same
/// bytes.
pub proof fn lemma_crc24a_matches_crc24(bytes: Seq<u8>)
    ensures
        crc24_of_bytes(bytes, 0x1864CFB) == crc24_spec(bytes),
{
    lemma_crc_bytes_prefix(bytes, bytes.len());
    let c = crc24_reg(bytes, bytes.len());
    lemma_crc24a_bit_facts(0, 0, 0, c, 0, 0, 0);
    assert(unpack_bit_values(bytes).len() == 8 * bytes.len());
}

} // verus!
