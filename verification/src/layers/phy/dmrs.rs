//! Reference-signal pseudo-random (Gold) sequences and initialization values
//! for PDCCH, PDSCH and PBCH demodulation reference signals.
use vstd::prelude::*;

verus! {

/// DMRS configuration type.
#[derive(Debug, Clone, Copy, PartialEq, Eq, Structural)]
pub enum DmrsType {
    /// Type 1: every other subcarrier
    Type1,
    /// Type 2: two groups of two adjacent subcarriers
    Type2,
}

impl DmrsType {
    /// Number of DMRS resource elements per resource block.
    pub fn nof_dmrs_per_rb(&self) -> (n: usize)
        ensures
            n == (if *self == DmrsType::Type1 { 6usize } else { 4usize }),
    {
        match self {
            DmrsType::Type1 => 6,
            DmrsType::Type2 => 4,
        }
    }
}

/// One step of the first m-sequence register: x1(n+31) = x1(n+3) + x1(n).
pub open spec fn gold_x1_step(x: u32) -> u32 {
    ((x >> 1u32) | ((((x >> 3u32) ^ x) & 1u32) << 30u32)) & 0x7FFF_FFFFu32
}

/// One step of the second m-sequence register:
/// x2(n+31) = x2(n+3) + x2(n+2) + x2(n+1) + x2(n).
pub open spec fn gold_x2_step(x: u32) -> u32 {
    ((x >> 1u32) | ((((x >> 3u32) ^ (x >> 2u32) ^ (x >> 1u32) ^ x) & 1u32) << 30u32)) & 0x7FFF_FFFFu32
}

/// The register pair after `n` steps from `s`.
pub open spec fn gold_advance(s: (u32, u32), n: nat) -> (u32, u32)
    decreases n,
{
    if n == 0 {
        s
    } else {
        let p = gold_advance(s, (n - 1) as nat);
        (gold_x1_step(p.0), gold_x2_step(p.1))
    }
}

/// The sequence bit c(n) read from a register pair: the XOR of the two low bits.
pub open spec fn gold_out_bit(s: (u32, u32)) -> u8 {
    ((s.0 ^ s.1) & 1u32) as u8
}

/// Register pair after the Nc = 1600 warm-up steps, as this generator seeds it
/// (x1 all ones, x2 the 31 low bits of `c_init`).
pub open spec fn dmrs_initial_state(c_init: u32) -> (u32, u32) {
    gold_advance((0x7FFF_FFFFu32, c_init & 0x7FFF_FFFFu32), 1600)
}

/// Bit `n` of the sequence that starts at register pair `s`.
pub open spec fn gold_bit_at(s: (u32, u32), n: nat) -> u8 {
    gold_out_bit(gold_advance(s, n))
}

/// Advancing `a` steps and then `b` steps is advancing `a + b` steps.
pub proof fn lemma_gold_advance_add(s: (u32, u32), a: nat, b: nat)
    ensures
        gold_advance(gold_advance(s, a), b) == gold_advance(s, a + b),
    decreases b,
{
    if b > 0 {
        lemma_gold_advance_add(s, a, (b - 1) as nat);
    }
}

/// The sequence depends on `c_init` through its 31 low bits only: two seeds
/// that agree there give the same sequence, bit for bit, and every bit is
/// 0 or 1.
pub proof fn lemma_dmrs_seed_low_bits(c1: u32, c2: u32, n: nat)
    requires
        c1 & 0x7FFF_FFFFu32 == c2 & 0x7FFF_FFFFu32,
    ensures
        dmrs_initial_state(c1) == dmrs_initial_state(c2),
        gold_bit_at(dmrs_initial_state(c1), n) == gold_bit_at(dmrs_initial_state(c2), n),
        gold_bit_at(dmrs_initial_state(c1), n) <= 1,
{
    let st = gold_advance(dmrs_initial_state(c1), n);
    let x: u32 = st.0 ^ st.1;
    assert(x & 1u32 <= 1u32) by (bit_vector);
}

/// Skipping `n` QPSK symbols (2n bits) and then reading bit `k` reads bit
/// `2n + k` of the sequence, as reading 2n bits first would.
pub proof fn lemma_skip_then_read(s: (u32, u32), n: nat, k: nat)
    ensures
        gold_bit_at(gold_advance(s, 2 * n), k) == gold_bit_at(s, 2 * n + k),
{
    lemma_gold_advance_add(s, 2 * n, k);
}

/// Gold sequence generator used for reference signals and scrambling.
pub struct DmrsSequenceGenerator {
    x1: u32,
    x2: u32,
}

impl DmrsSequenceGenerator {
    /// The current register pair.
    pub closed spec fn state(&self) -> (u32, u32) {
        (self.x1, self.x2)
    }

    /// Creates a generator seeded with `c_init` and advanced past the
    /// Nc = 1600 warm-up steps.
    pub fn new(c_init: u32) -> (g: Self)
        ensures
            g.state() == dmrs_initial_state(c_init),
    {
        let mut g = DmrsSequenceGenerator { x1: 0x7FFF_FFFF, x2: c_init & 0x7FFF_FFFF };
        let ghost s0 = g.state();
        let mut i: u32 = 0;
        while i < 1600
            invariant
                i <= 1600,
                g.state() == gold_advance(s0, i as nat),
                s0 == (0x7FFF_FFFFu32, c_init & 0x7FFF_FFFFu32),
            decreases 1600 - i,
        {
            g.advance();
            proof {
                lemma_gold_advance_add(s0, i as nat, 1);
            }
            i = i + 1;
        }
        g
    }

    /// Advances both registers by one step.
    fn advance(&mut self)
        ensures
            final(self).state() == gold_advance(old(self).state(), 1),
    {
        let x1 = self.x1;
        let x1_new = ((x1 >> 3u32) ^ x1) & 1u32;
        self.x1 = ((x1 >> 1u32) | (x1_new << 30u32)) & 0x7FFF_FFFFu32;
        let x2 = self.x2;
        let x2_new = ((x2 >> 3u32) ^ (x2 >> 2u32) ^ (x2 >> 1u32) ^ x2) & 1u32;
        self.x2 = ((x2 >> 1u32) | (x2_new << 30u32)) & 0x7FFF_FFFFu32;
        assert(gold_advance(old(self).state(), 1) == (gold_x1_step(x1), gold_x2_step(x2))) by {
            reveal_with_fuel(gold_advance, 2);
        }
    }

    /// Returns the next sequence bit and advances the generator.
    pub fn next_bit(&mut self) -> (b: u8)
        ensures
            b == gold_out_bit(old(self).state()),
            b <= 1,
            final(self).state() == gold_advance(old(self).state(), 1),
    {
        let a = self.x1;
        let b = self.x2;
        let c = (a ^ b) & 1u32;
        assert(c <= 1) by (bit_vector)
            requires
                c == (a ^ b) & 1u32,
        ;
        self.advance();
        c as u8
    }

    /// Skips `n_symbols` QPSK symbols (two sequence bits each).
    pub fn skip(&mut self, n_symbols: usize)
        requires
            n_symbols * 2 <= usize::MAX,
        ensures
            final(self).state() == gold_advance(old(self).state(), (n_symbols * 2) as nat),
    {
        let total = n_symbols * 2;
        let mut i: usize = 0;
        while i < total
            invariant
                i <= total,
                total == n_symbols * 2,
                self.state() == gold_advance(old(self).state(), i as nat),
            decreases total - i,
        {
            self.advance();
            proof {
                lemma_gold_advance_add(old(self).state(), i as nat, 1);
            }
            i = i + 1;
        }
    }
}

/// PDCCH DMRS initialization value
/// c_init = (2^17 (14 n_slot + l + 1)(2 N_ID + 1) + 2 N_ID) mod 2^31.
pub open spec fn pdcch_dmrs_cinit(slot: u32, symbol: u8, n_id: u16) -> int {
    (0x20000 * (14 * slot + symbol + 1) * (2 * n_id + 1) + 2 * n_id) % 0x8000_0000
}

/// PDSCH DMRS initialization value
/// c_init = (2^17 (14 n_slot + l + 1)(2 N_ID + 1) + 2 N_ID + n_SCID) mod 2^31.
pub open spec fn pdsch_dmrs_cinit(slot: u32, symbol: u8, n_id: u16, n_scid: bool) -> int {
    (0x20000 * (14 * slot + symbol + 1) * (2 * n_id + 1) + 2 * n_id + (if n_scid { 1int } else { 0 }))
        % 0x8000_0000
}

/// The product 2^17 (14 n_slot + l + 1)(2 N_ID + 1) computed without overflow.
fn dmrs_cinit_product(slot: u32, symbol: u8, n_id: u16) -> (p: u128)
    ensures
        p == 0x20000 * (14 * slot + symbol + 1) * (2 * n_id + 1),
        p < 0x1_0000_0000_0000_0000_0000,
{
    let a: u128 = 14u128 * (slot as u128) + (symbol as u128) + 1;
    let b: u128 = 2u128 * (n_id as u128) + 1;
    assert(a < 0x10_0000_0000);
    assert(b < 0x2_0000);
    assert(0x20000 * a * b < 0x1_0000_0000_0000_0000_0000) by (nonlinear_arith)
        requires
            a < 0x10_0000_0000,
            b < 0x2_0000,
    ;
    assert(0x20000 * a * b >= 0) by (nonlinear_arith)
        requires
            a >= 0,
            b >= 0,
    ;
    0x20000u128 * a * b
}

/// Calculates the PDCCH DMRS initialization value (reduced modulo 2^31).
pub fn calculate_pdcch_dmrs_cinit(slot: u32, symbol: u8, n_id: u16) -> (c: u32)
    ensures
        c == pdcch_dmrs_cinit(slot, symbol, n_id),
{
    let p = dmrs_cinit_product(slot, symbol, n_id);
    let v = p + 2u128 * (n_id as u128);
    (v % 0x8000_0000u128) as u32
}

/// Calculates the PDSCH DMRS initialization value (reduced modulo 2^31).
pub fn calculate_pdsch_dmrs_cinit(slot: u32, symbol: u8, n_id: u16, n_scid: bool) -> (c: u32)
    ensures
        c == pdsch_dmrs_cinit(slot, symbol, n_id, n_scid),
{
    let p = dmrs_cinit_product(slot, symbol, n_id);
    let scid: u128 = if n_scid { 1 } else { 0 };
    let v = p + 2u128 * (n_id as u128) + scid;
    (v % 0x8000_0000u128) as u32
}

/// The SS/PBCH block index term i_SSB used for PBCH DMRS.
pub open spec fn pbch_i_ssb(ssb_idx: u8, n_hf: u8, l_max: u8) -> u32 {
    if l_max == 8 || l_max == 64 {
        (ssb_idx & 7u8) as u32
    } else {
        ((ssb_idx & 3u8) as u32 + 4 * (n_hf as u32)) as u32
    }
}

/// The value 2^11 (i_SSB + 1)(floor(N_ID / 4) + 1), kept to 32 bits.
pub open spec fn pbch_cinit_high(n_id: u16, ssb_idx: u8, n_hf: u8, l_max: u8) -> int {
    ((pbch_i_ssb(ssb_idx, n_hf, l_max) + 1) * (n_id / 4 + 1) * 2048) % 0x1_0000_0000
}

/// PBCH DMRS initialization value
/// c_init = 2^11 (i_SSB + 1)(floor(N_ID / 4) + 1) + 2^6 (i_SSB + 1) + (N_ID mod 4),
/// the first term kept to 32 bits.
pub open spec fn pbch_dmrs_cinit(n_id: u16, ssb_idx: u8, n_hf: u8, l_max: u8) -> int {
    pbch_cinit_high(n_id, ssb_idx, n_hf, l_max) + (pbch_i_ssb(ssb_idx, n_hf, l_max) + 1) * 64
        + n_id % 4
}

/// Calculates the PBCH DMRS initialization value.
pub fn calculate_pbch_dmrs_cinit(n_id: u16, ssb_idx: u8, n_hf: u8, l_max: u8) -> (c: u32)
    requires
        pbch_dmrs_cinit(n_id, ssb_idx, n_hf, l_max) <= u32::MAX,
    ensures
        c == pbch_dmrs_cinit(n_id, ssb_idx, n_hf, l_max),
{
    let i_ssb: u32 = if l_max == 4 {
        ((ssb_idx & 0b11) as u32) + 4 * (n_hf as u32)
    } else if l_max == 8 || l_max == 64 {
        (ssb_idx & 0b111) as u32
    } else {
        ((ssb_idx & 0b11) as u32) + 4 * (n_hf as u32)
    };
    assert(i_ssb == pbch_i_ssb(ssb_idx, n_hf, l_max));
    assert(i_ssb <= 1023) by (bit_vector)
        requires
            i_ssb == (ssb_idx & 3u8) as u32 + 4 * (n_hf as u32) || i_ssb == (ssb_idx & 7u8) as u32,
    ;
    let n_id_div_4 = (n_id / 4) as u32;
    let n_id_mod_4 = (n_id % 4) as u32;
    assert(n_id_div_4 <= 16383);
    assert((i_ssb + 1) * (n_id_div_4 + 1) <= 1024 * 16384) by (nonlinear_arith)
        requires
            i_ssb + 1 <= 1024,
            n_id_div_4 + 1 <= 16384,
    ;
    let a: u32 = (i_ssb + 1) * (n_id_div_4 + 1);
    let hi = a << 11u32;
    assert(hi as int == (a as int * 2048) % 0x1_0000_0000) by (bit_vector)
        requires
            hi == a << 11u32,
    ;
    let i1 = i_ssb + 1;
    let lo = i1 << 6u32;
    assert(lo == i1 * 64) by (bit_vector)
        requires
            lo == i1 << 6u32,
            i1 <= 1024,
    ;
    hi + lo + n_id_mod_4
}

/// The DMRS bits for the allocated RBs among the first `i` entries of the
/// mask: for each allocated RB index r, in order, the 2 * nof sequence bits
/// from bit 2 * r * nof on (nof QPSK symbols per RB).
pub open spec fn dmrs_mask_bits(mask: Seq<bool>, nof: nat, s: (u32, u32), i: nat) -> Seq<u8>
    decreases i,
{
    if i == 0 {
        Seq::empty()
    } else {
        let prev = dmrs_mask_bits(mask, nof, s, (i - 1) as nat);
        if mask[i - 1] {
            prev + Seq::new(2 * nof, |t: int| gold_bit_at(s, (2 * (i - 1) * nof + t) as nat))
        } else {
            prev
        }
    }
}

/// The DMRS sequence bits for an RB mask (two bits per QPSK symbol,
/// `nof_dmrs_per_rb` symbols per allocated RB, each RB at its own offset of
/// the sequence); the generator is left after the last allocated RB.
pub fn generate_dmrs_bits(
    rb_mask: &[bool],
    reference_point_k_rb: u16,
    nof_dmrs_per_rb: usize,
    generator: &mut DmrsSequenceGenerator,
) -> (r: Vec<u8>)
    requires
        reference_point_k_rb + rb_mask@.len() <= u16::MAX,
        2 * nof_dmrs_per_rb * (rb_mask@.len() + 1) <= usize::MAX,
    ensures
        r@ == dmrs_mask_bits(rb_mask@, nof_dmrs_per_rb as nat, old(generator).state(), rb_mask@.len()),
{
    let ghost s0 = generator.state();
    let mut out: Vec<u8> = Vec::new();
    let mut current_rb: u16 = reference_point_k_rb;
    let mut rb_idx: usize = 0;
    let nof = nof_dmrs_per_rb;
    while rb_idx < rb_mask.len()
        invariant
            rb_idx <= rb_mask@.len(),
            nof == nof_dmrs_per_rb,
            reference_point_k_rb + rb_mask@.len() <= u16::MAX,
            2 * nof * (rb_mask@.len() + 1) <= usize::MAX,
            reference_point_k_rb <= current_rb <= reference_point_k_rb + rb_idx,
            generator.state() == gold_advance(s0, (2 * nof * (current_rb - reference_point_k_rb)) as nat),
            out@ == dmrs_mask_bits(rb_mask@, nof as nat, s0, rb_idx as nat),
        decreases rb_mask@.len() - rb_idx,
    {
        let rb = reference_point_k_rb + rb_idx as u16;
        if rb_mask[rb_idx] {
            let ghost cur = (current_rb - reference_point_k_rb) as nat;
            if rb > current_rb {
                let skip_rbs = (rb - current_rb) as usize;
                proof {
                    assert(skip_rbs * nof * 2 <= usize::MAX) by (nonlinear_arith)
                        requires
                            skip_rbs <= rb_mask@.len(),
                            2 * nof * (rb_mask@.len() + 1) <= usize::MAX,
                    ;
                    assert(skip_rbs * nof <= usize::MAX) by (nonlinear_arith)
                        requires
                            skip_rbs * nof * 2 <= usize::MAX,
                    ;
                }
                generator.skip(skip_rbs * nof);
                proof {
                    lemma_gold_advance_add(s0, (2 * nof * cur) as nat, (skip_rbs * nof * 2) as nat);
                    assert(2 * nof * cur + skip_rbs * nof * 2 == 2 * nof * rb_idx) by (nonlinear_arith)
                        requires
                            skip_rbs == rb_idx - cur,
                    ;
                }
            }
            let ghost before = out@;
            let ghost base = (2 * nof * rb_idx) as nat;
            assert(generator.state() == gold_advance(s0, base));
            let mut t: usize = 0;
            proof {
                assert(2 * nof <= 2 * nof * (rb_mask@.len() + 1)) by (nonlinear_arith)
                    requires
                        rb_mask@.len() >= 0,
                ;
            }
            while t < 2 * nof
                invariant
                    t <= 2 * nof,
                    2 * nof <= usize::MAX,
                    generator.state() == gold_advance(s0, (base + t) as nat),
                    out@ == before + Seq::new(t as nat, |k: int| gold_bit_at(s0, (base + k) as nat)),
                decreases 2 * nof - t,
            {
                let b = generator.next_bit();
                proof {
                    lemma_gold_advance_add(s0, (base + t) as nat, 1);
                }
                out.push(b);
                t = t + 1;
                assert(out@ =~= before + Seq::new(t as nat, |k: int| gold_bit_at(s0, (base + k) as nat)));
            }
            proof {
                assert(2 * nof * rb_idx + 2 * nof == 2 * nof * (rb_idx + 1)) by (nonlinear_arith);
                assert(Seq::new(2 * nof as nat, |k: int| gold_bit_at(s0, (base + k) as nat)) =~= Seq::new(
                    2 * nof as nat,
                    |k: int| gold_bit_at(s0, (2 * rb_idx * nof + k) as nat),
                )) by {
                    assert(base == 2 * rb_idx * nof) by (nonlinear_arith)
                        requires
                            base == 2 * nof * rb_idx,
                    ;
                }
            }
            current_rb = rb + 1;
        }
        rb_idx = rb_idx + 1;
    }
    out
}

/// Code-division weights of a DMRS port, as signs (+1 or -1): frequency
/// weights for even/odd DMRS subcarriers, time weights for the first and
/// the additional DMRS symbol.
#[derive(Debug, Clone, Copy)]
pub struct DmrsWeightSigns {
    /// Frequency-domain weights
    pub w_f: [i8; 2],
    /// Time-domain weights
    pub w_t: [i8; 2],
}

/// The DMRS ports of a configuration type: 0..=7 for type 1, 0..=11 for
/// type 2.
pub open spec fn dmrs_port_valid(t: DmrsType, port: u8) -> bool {
    match t {
        DmrsType::Type1 => port <= 7,
        DmrsType::Type2 => port <= 11,
    }
}

/// The subcarriers (within an RB) of a DMRS port: type 1 uses the even or
/// odd subcarriers (CDM group (port / 2) mod 2); type 2 uses the pairs
/// {0,1,6,7}, {2,3,8,9} or {4,5,10,11} (CDM group (port / 2) mod 3).
pub open spec fn dmrs_port_positions(t: DmrsType, port: u8) -> Seq<u8> {
    match t {
        DmrsType::Type1 => {
            let g = ((port / 2) % 2) as u8;
            Seq::new(6, |i: int| (2 * i + g) as u8)
        },
        DmrsType::Type2 => {
            let g = ((port / 2) % 3) as int;
            seq![(2 * g) as u8, (2 * g + 1) as u8, (2 * g + 6) as u8, (2 * g + 7) as u8]
        },
    }
}

/// The CDM weight signs of a port: the second frequency weight is -1 for
/// odd ports; the second time weight is -1 for ports 4.. (type 1) or 6..
/// (type 2).
pub open spec fn dmrs_port_weights(t: DmrsType, port: u8) -> DmrsWeightSigns {
    let wt_split: u8 = match t {
        DmrsType::Type1 => 4,
        DmrsType::Type2 => 6,
    };
    DmrsWeightSigns {
        w_f: [1i8, if port % 2 == 0 { 1i8 } else { -1i8 }],
        w_t: [1i8, if port < wt_split { 1i8 } else { -1i8 }],
    }
}

/// The DMRS subcarriers and CDM weight signs of a PDSCH port.
pub fn get_pdsch_dmrs_params(dmrs_type: DmrsType, dmrs_port: u8) -> (r: (Vec<u8>, DmrsWeightSigns))
    requires
        dmrs_port_valid(dmrs_type, dmrs_port),
    ensures
        r.0@ == dmrs_port_positions(dmrs_type, dmrs_port),
        r.1.w_f@ == dmrs_port_weights(dmrs_type, dmrs_port).w_f@,
        r.1.w_t@ == dmrs_port_weights(dmrs_type, dmrs_port).w_t@,
{
    let w_f1: i8 = if dmrs_port % 2 == 0 { 1 } else { -1 };
    match dmrs_type {
        DmrsType::Type1 => {
            let g: u8 = (dmrs_port / 2) % 2;
            let positions: Vec<u8> = vec![g, 2 + g, 4 + g, 6 + g, 8 + g, 10 + g];
            assert(positions@ =~= dmrs_port_positions(dmrs_type, dmrs_port));
            let w_t1: i8 = if dmrs_port < 4 { 1 } else { -1 };
            let w = DmrsWeightSigns { w_f: [1, w_f1], w_t: [1, w_t1] };
            assert(w.w_f@ =~= dmrs_port_weights(dmrs_type, dmrs_port).w_f@);
            assert(w.w_t@ =~= dmrs_port_weights(dmrs_type, dmrs_port).w_t@);
            (positions, w)
        },
        DmrsType::Type2 => {
            let g: u8 = (dmrs_port / 2) % 3;
            let positions: Vec<u8> = vec![2 * g, 2 * g + 1, 2 * g + 6, 2 * g + 7];
            assert(positions@ =~= dmrs_port_positions(dmrs_type, dmrs_port));
            let w_t1: i8 = if dmrs_port < 6 { 1 } else { -1 };
            let w = DmrsWeightSigns { w_f: [1, w_f1], w_t: [1, w_t1] };
            assert(w.w_f@ =~= dmrs_port_weights(dmrs_type, dmrs_port).w_f@);
            assert(w.w_t@ =~= dmrs_port_weights(dmrs_type, dmrs_port).w_t@);
            (positions, w)
        },
    }
}

/// Each allocated RB adds 2 * nof bits.
pub proof fn lemma_dmrs_mask_bits_len(mask: Seq<bool>, nof: nat, s: (u32, u32), i: nat)
    ensures
        nof > 0 ==> dmrs_mask_bits(mask, nof, s, i).len() % (2 * nof) == 0,
        dmrs_mask_bits(mask, nof, s, i).len() <= 2 * nof * i,
    decreases i,
{
    if i > 0 {
        lemma_dmrs_mask_bits_len(mask, nof, s, (i - 1) as nat);
        let prev = dmrs_mask_bits(mask, nof, s, (i - 1) as nat);
        if nof > 0 {
            let q = prev.len() / (2 * nof);
            assert(prev.len() == q * (2 * nof)) by (nonlinear_arith)
                requires
                    prev.len() % (2 * nof) == 0,
                    q == prev.len() / (2 * nof),
                    nof > 0,
            ;
            assert((q * (2 * nof) + 2 * nof) % (2 * nof) == 0) by (nonlinear_arith)
                requires
                    nof > 0,
            ;
        }
        assert(2 * nof * (i - 1) + 2 * nof == 2 * nof * i) by (nonlinear_arith);
    }
}

} // verus!
