//! PBCH: the MIB message and the PBCH bit pipeline (payload generation and
//! selective scrambling, CRC attachment, polar coding, rate matching and
//! scrambling), with the hard-decision receive path.
use vstd::prelude::*;
use crate::common::math::{exp2, lemma_exp2_values};
use crate::common::types::{CellId, Pci, SubcarrierSpacing};
use crate::layers::LayerError;
use crate::common::text::{decimal, push_decimal, push_str};
use crate::layers::phy::dmrs::{gold_advance, gold_x1_step, gold_x2_step, lemma_gold_advance_add};
use crate::layers::phy::polar::{
    PolarAllocator, PolarCode, PolarEncoder, polar_allocate, polar_info_mask, polar_n_log,
    polar_n_log_from, polar_transform, zero_bits, lemma_polar_transform_len, lemma_polar_n_log_fits,
};
use crate::layers::phy::shortfall;

verus! {

/// DMRS position of PDSCH mapping type A.
#[derive(Debug, Clone, Copy, PartialEq, Eq, Structural)]
pub enum DmrsPosition {
    /// Third symbol of the slot
    Pos2,
    /// Fourth symbol of the slot
    Pos3,
}

/// The Master Information Block.
#[derive(Debug, Clone, Copy, PartialEq, Eq, Structural)]
pub struct Mib {
    /// The 6 most significant bits of the system frame number
    pub sfn: u16,
    /// Subcarrier spacing of the common resources
    pub subcarrier_spacing_common: SubcarrierSpacing,
    /// SSB subcarrier offset (4 bits)
    pub ssb_subcarrier_offset: u8,
    /// DMRS type A position
    pub dmrs_type_a_position: DmrsPosition,
    /// CORESET#0 / search space #0 configuration (8 bits)
    pub pdcch_config_sib1: u8,
    /// Cell barred
    pub cell_barred: bool,
    /// Intra-frequency reselection allowed
    pub intra_freq_reselection: bool,
    /// Spare bit
    pub spare: u8,
}

/// Bits `w-1` down to 0 of `v`, most significant first.
pub open spec fn msb_bits_u16(v: u16, w: nat) -> Seq<u8> {
    Seq::new(w, |i: int| ((v >> ((w - 1 - i) as u16)) & 1u16) as u8)
}

/// Bits `w-1` down to 0 of `v`, most significant first.
pub open spec fn msb_bits_u8(v: u8, w: nat) -> Seq<u8> {
    Seq::new(w, |i: int| (v >> ((w - 1 - i) as u8)) & 1u8)
}

/// The 24 MIB bits: the message-type bit (0), SFN (6), spacing (1: 1 for
/// 30 kHz), SSB offset (4), DMRS position (1), PDCCH configuration (8),
/// barred, reselection and the low bit of the spare field.
pub open spec fn mib_bits(m: Mib) -> Seq<u8> {
    seq![0u8] + msb_bits_u16(m.sfn, 6) + seq![
        if m.subcarrier_spacing_common == SubcarrierSpacing::Scs30 {
            1u8
        } else {
            0u8
        },
    ] + msb_bits_u8(m.ssb_subcarrier_offset, 4) + seq![
        if m.dmrs_type_a_position == DmrsPosition::Pos3 {
            1u8
        } else {
            0u8
        },
    ] + msb_bits_u8(m.pdcch_config_sib1, 8) + seq![
        if m.cell_barred {
            1u8
        } else {
            0u8
        },
        if m.intra_freq_reselection {
            1u8
        } else {
            0u8
        },
        m.spare & 1u8,
    ]
}

/// Bits `lo..hi` folded into a 16-bit value, most significant first.
pub open spec fn fold_u16(bits: Seq<u8>, lo: int, hi: int) -> u16
    decreases hi - lo,
{
    if hi <= lo {
        0
    } else {
        (fold_u16(bits, lo, hi - 1) << 1u16) | (bits[hi - 1] as u16)
    }
}

/// Bits `lo..hi` folded into an 8-bit value, most significant first.
pub open spec fn fold_u8(bits: Seq<u8>, lo: int, hi: int) -> u8
    decreases hi - lo,
{
    if hi <= lo {
        0
    } else {
        (fold_u8(bits, lo, hi - 1) << 1u8) | bits[hi - 1]
    }
}

/// The MIB read from 24 bits.
pub open spec fn mib_from_bits(bits: Seq<u8>) -> Mib {
    Mib {
        sfn: fold_u16(bits, 1, 7),
        subcarrier_spacing_common: if bits[7] == 0 {
            SubcarrierSpacing::Scs15
        } else {
            SubcarrierSpacing::Scs30
        },
        ssb_subcarrier_offset: fold_u8(bits, 8, 12),
        dmrs_type_a_position: if bits[12] == 0 {
            DmrsPosition::Pos2
        } else {
            DmrsPosition::Pos3
        },
        pdcch_config_sib1: fold_u8(bits, 13, 21),
        cell_barred: bits[21] == 1,
        intra_freq_reselection: bits[22] == 1,
        spare: bits[23],
    }
}

/// A MIB whose fields fit their bit widths (and whose spacing is one the
/// message can carry).
pub open spec fn mib_representable(m: Mib) -> bool {
    &&& m.sfn < 64
    &&& m.ssb_subcarrier_offset < 16
    &&& m.spare <= 1
    &&& (m.subcarrier_spacing_common == SubcarrierSpacing::Scs15
        || m.subcarrier_spacing_common == SubcarrierSpacing::Scs30)
}

/// The message refusing a decoded PBCH payload that is not 56 bits long.
pub open spec fn pbch_payload_size_text(len: nat) -> Seq<char> {
    "Invalid PBCH payload size: "@ + decimal(len)
}

/// The message refusing a decoded PBCH payload that is not 56 bits long.
fn pbch_payload_size_message(len: usize) -> (m: String)
    ensures
        m@ == pbch_payload_size_text(len as nat),
{
    let mut m = String::new();
    push_str(&mut m, "Invalid PBCH payload size: ");
    push_decimal(&mut m, len as u64);
    assert(m@ =~= pbch_payload_size_text(len as nat));
    m
}

/// The message refusing a MIB that is not 24 bits long.
pub open spec fn mib_length_text(len: nat) -> Seq<char> {
    "MIB must be 24 bits, got "@ + decimal(len)
}

/// The message refusing a MIB that is not 24 bits long.
fn mib_length_message(len: usize) -> (m: String)
    ensures
        m@ == mib_length_text(len as nat),
{
    let mut m = String::new();
    push_str(&mut m, "MIB must be 24 bits, got ");
    push_decimal(&mut m, len as u64);
    assert(m@ =~= mib_length_text(len as nat));
    m
}

impl Mib {
    /// The default MIB: SFN 0, 15 kHz, offset 0, DMRS at symbol 2, no
    /// PDCCH configuration, not barred, reselection allowed.
    pub fn new() -> (m: Self)
        ensures
            m == (Mib {
                sfn: 0,
                subcarrier_spacing_common: SubcarrierSpacing::Scs15,
                ssb_subcarrier_offset: 0,
                dmrs_type_a_position: DmrsPosition::Pos2,
                pdcch_config_sib1: 0,
                cell_barred: false,
                intra_freq_reselection: true,
                spare: 0,
            }),
    {
        Mib {
            sfn: 0,
            subcarrier_spacing_common: SubcarrierSpacing::Scs15,
            ssb_subcarrier_offset: 0,
            dmrs_type_a_position: DmrsPosition::Pos2,
            pdcch_config_sib1: 0,
            cell_barred: false,
            intra_freq_reselection: true,
            spare: 0,
        }
    }

    /// Encodes the MIB into its 24 bits.
    pub fn encode(&self) -> (bits: Vec<u8>)
        ensures
            bits@ == mib_bits(*self),
            bits@.len() == 24,
    {
        let mut bits: Vec<u8> = Vec::new();
        bits.push(0);
        let mut i: u16 = 6;
        while i > 0
            invariant
                i <= 6,
                bits@ == seq![0u8] + msb_bits_u16(self.sfn, 6).take(6 - i),
            decreases i,
        {
            i = i - 1;
            bits.push(((self.sfn >> i) & 1) as u8);
            assert(bits@ =~= seq![0u8] + msb_bits_u16(self.sfn, 6).take(6 - i));
        }
        let scs_bit: u8 = match self.subcarrier_spacing_common {
            SubcarrierSpacing::Scs30 => 1,
            _ => 0,
        };
        bits.push(scs_bit);
        let ghost p1 = bits@;
        let mut i: u8 = 4;
        while i > 0
            invariant
                i <= 4,
                bits@ == p1 + msb_bits_u8(self.ssb_subcarrier_offset, 4).take(4 - i),
            decreases i,
        {
            i = i - 1;
            bits.push((self.ssb_subcarrier_offset >> i) & 1);
            assert(bits@ =~= p1 + msb_bits_u8(self.ssb_subcarrier_offset, 4).take(4 - i));
        }
        bits.push(
            match self.dmrs_type_a_position {
                DmrsPosition::Pos2 => 0,
                DmrsPosition::Pos3 => 1,
            },
        );
        let ghost p2 = bits@;
        let mut i: u8 = 8;
        while i > 0
            invariant
                i <= 8,
                bits@ == p2 + msb_bits_u8(self.pdcch_config_sib1, 8).take(8 - i),
            decreases i,
        {
            i = i - 1;
            bits.push((self.pdcch_config_sib1 >> i) & 1);
            assert(bits@ =~= p2 + msb_bits_u8(self.pdcch_config_sib1, 8).take(8 - i));
        }
        bits.push(if self.cell_barred { 1 } else { 0 });
        bits.push(if self.intra_freq_reselection { 1 } else { 0 });
        bits.push(self.spare & 1);
        proof {
            assert(msb_bits_u16(self.sfn, 6).take(6) =~= msb_bits_u16(self.sfn, 6));
            assert(msb_bits_u8(self.ssb_subcarrier_offset, 4).take(4) =~= msb_bits_u8(
                self.ssb_subcarrier_offset,
                4,
            ));
            assert(msb_bits_u8(self.pdcch_config_sib1, 8).take(8) =~= msb_bits_u8(
                self.pdcch_config_sib1,
                8,
            ));
        }
        assert(bits@ =~= mib_bits(*self));
        bits
    }

    /// Decodes a MIB from exactly 24 bits.
    pub fn decode(bits: &[u8]) -> (r: Result<Self, LayerError>)
        ensures
            bits@.len() == 24 ==> r == Ok::<Mib, LayerError>(mib_from_bits(bits@)),
            bits@.len() != 24 ==> r is Err && r->Err_0 is InvalidConfiguration
                && r->Err_0->InvalidConfiguration_0@ == mib_length_text(bits@.len()),
    {
        if bits.len() != 24 {
            return Err(LayerError::InvalidConfiguration(mib_length_message(bits.len())));
        }
        let mut sfn: u16 = 0;
        let mut i: usize = 1;
        while i < 7
            invariant
                1 <= i <= 7,
                bits@.len() == 24,
                sfn == fold_u16(bits@, 1, i as int),
            decreases 7 - i,
        {
            sfn = (sfn << 1u16) | (bits[i] as u16);
            i = i + 1;
        }
        let scs = if bits[7] == 0 {
            SubcarrierSpacing::Scs15
        } else {
            SubcarrierSpacing::Scs30
        };
        let mut offset: u8 = 0;
        let mut i: usize = 8;
        while i < 12
            invariant
                8 <= i <= 12,
                bits@.len() == 24,
                offset == fold_u8(bits@, 8, i as int),
            decreases 12 - i,
        {
            offset = (offset << 1u8) | bits[i];
            i = i + 1;
        }
        let dmrs = if bits[12] == 0 {
            DmrsPosition::Pos2
        } else {
            DmrsPosition::Pos3
        };
        let mut pdcch: u8 = 0;
        let mut i: usize = 13;
        while i < 21
            invariant
                13 <= i <= 21,
                bits@.len() == 24,
                pdcch == fold_u8(bits@, 13, i as int),
            decreases 21 - i,
        {
            pdcch = (pdcch << 1u8) | bits[i];
            i = i + 1;
        }
        Ok(
            Mib {
                sfn,
                subcarrier_spacing_common: scs,
                ssb_subcarrier_offset: offset,
                dmrs_type_a_position: dmrs,
                pdcch_config_sib1: pdcch,
                cell_barred: bits[21] == 1,
                intra_freq_reselection: bits[22] == 1,
                spare: bits[23],
            },
        )
    }
}

/// Decoding the bits of a MIB gives the MIB back, for every MIB whose

/// The four least significant SFN bits travel in the PBCH payload at
/// positions G[6], G[7], G[8], G[9] (payload bits 10, 6, 24 and 7), the 4th
/// LSB first; the half-frame bit is at G[10] (bit 0) and the bits at G[11],

/// The MIB travels in the PBCH payload field by field: the 6 SFN bits it
/// holds (most significant first) at G[0..6], its message-type bit (0) at
/// G[14], and its remaining 17 bits in order at G[15..32].
pub proof fn lemma_pbch_payload_mib_fields(m: Mib, frame: u32)
    ensures
        forall|j: int|
            0 <= j < 6 ==> #[trigger] pbch_payload(mib_bits(m), frame)[pbch_g()[j] as int] == ((m.sfn >> ((5
                - j) as u16)) & 1u16) as u8,
        pbch_payload(mib_bits(m), frame)[pbch_g()[14] as int] == 0,
        forall|j: int|
            15 <= j < 32 ==> #[trigger] pbch_payload(mib_bits(m), frame)[pbch_g()[j] as int] == mib_bits(m)[j - 8],
{
    lemma_pbch_g_inverse();
    let mb = mib_bits(m);
    assert(mb.len() == 24);
    assert forall|j: int| 0 <= j < 32 implies #[trigger] pbch_payload(mb, frame)[pbch_g()[j] as int] == pbch_field(
        mb,
        frame,
        j as nat,
    ) by {
        lemma_pbch_g_distinct(j);
        let p = pbch_g()[j] as int;
        lemma_pbch_g_distinct(pbch_g_inv()[p] as int);
        assert(pbch_g_inv()[p] == j);
    }
    assert forall|j: int| 0 <= j < 6 implies #[trigger] msb_bits_u16(m.sfn, 6)[j] == mb[j + 1] by {
        assert(mb[j + 1] == msb_bits_u16(m.sfn, 6)[j]);
    }
}

/// The payload of frame f is scrambled except at G[7], G[8], G[10..14]
/// (payload bits 6, 24, 0, 5, 3, 2), and the scrambling sequence starts at
/// 29 * v, where v is twice the 3rd LSB of the SFN plus its 2nd LSB.
pub proof fn lemma_pbch_payload_scrambling_offset(mib: Seq<u8>, frame: u32, c_init: u32)
    ensures
        ({
            let a = pbch_payload(mib, frame);
            let sa = pbch_payload_scrambled(a, c_init);
            &&& sa.len() == 32
            &&& sa[6] == a[6] && sa[24] == a[24] && sa[0] == a[0]
            &&& sa[5] == a[5] && sa[3] == a[3] && sa[2] == a[2]
            &&& forall|i: int|
                0 <= i < 32 && i != 6 && i != 24 && i != 0 && i != 5 && i != 3 && i != 2 ==> #[trigger] sa[i] == a[i]
                    ^ pbch_gold_bit(
                    c_init,
                    (29 * (2 * (((frame >> 2u32) & 1u32) as u8) + (((frame >> 1u32) & 1u32) as u8))
                        + pbch_scrambled_before(i)) as nat,
                )
        }),
{
    lemma_pbch_payload_sfn_bits(mib, frame);
}
/// G[12], G[13] (bits 5, 3 and 2) are zero.
pub proof fn lemma_pbch_payload_sfn_bits(mib: Seq<u8>, frame: u32)
    ensures
        pbch_payload(mib, frame).len() == 32,
        pbch_payload(mib, frame)[10] == ((frame >> 3u32) & 1u32) as u8,
        pbch_payload(mib, frame)[6] == ((frame >> 2u32) & 1u32) as u8,
        pbch_payload(mib, frame)[24] == ((frame >> 1u32) & 1u32) as u8,
        pbch_payload(mib, frame)[7] == ((frame >> 0u32) & 1u32) as u8,
        forall|k: int| 0 <= k < 4 ==> #[trigger] pbch_payload(mib, frame)[pbch_g()[6 + k] as int] == ((frame >> ((3
            - k) as u32)) & 1u32) as u8,
        pbch_payload(mib, frame)[0] == ((frame / 5) % 2) as u8,
        pbch_payload(mib, frame)[5] == 0,
        pbch_payload(mib, frame)[3] == 0,
        pbch_payload(mib, frame)[2] == 0,
{
    let a = pbch_payload(mib, frame);
    assert(pbch_g_inv()[10] == 6 && pbch_g_inv()[6] == 7 && pbch_g_inv()[24] == 8 && pbch_g_inv()[7] == 9);
    assert(pbch_g_inv()[0] == 10 && pbch_g_inv()[5] == 11 && pbch_g_inv()[3] == 12 && pbch_g_inv()[2] == 13);
    assert forall|k: int| 0 <= k < 4 implies #[trigger] a[pbch_g()[6 + k] as int] == ((frame >> ((3 - k) as u32))
        & 1u32) as u8 by {
        if k == 0 {
            assert(pbch_g()[6] == 10);
        } else if k == 1 {
            assert(pbch_g()[7] == 6);
        } else if k == 2 {
            assert(pbch_g()[8] == 24);
        } else {
            assert(pbch_g()[9] == 7);
        }
    }
}
/// fields fit their widths.
pub proof fn lemma_mib_roundtrip(m: Mib)
    requires
        mib_representable(m),
    ensures
        mib_bits(m).len() == 24,
        mib_from_bits(mib_bits(m)) == m,
{
    let b = mib_bits(m);
    assert(b.len() == 24);
    reveal_with_fuel(fold_u16, 7);
    reveal_with_fuel(fold_u8, 9);
    let s = m.sfn;
    let b1 = b[1];
    let b2 = b[2];
    let b3 = b[3];
    let b4 = b[4];
    let b5 = b[5];
    let b6 = b[6];
    assert(b1 == ((s >> 5u16) & 1u16) as u8 && b2 == ((s >> 4u16) & 1u16) as u8 && b3 == ((s
        >> 3u16) & 1u16) as u8 && b4 == ((s >> 2u16) & 1u16) as u8 && b5 == ((s >> 1u16) & 1u16)
        as u8 && b6 == ((s >> 0u16) & 1u16) as u8);
    assert(fold_u16(b, 1, 7) == ((((((((0u16 << 1u16) | (b1 as u16)) << 1u16) | (b2 as u16))
        << 1u16 | (b3 as u16)) << 1u16 | (b4 as u16)) << 1u16 | (b5 as u16)) << 1u16 | (b6
        as u16)));
    assert(((((((((0u16 << 1u16) | (b1 as u16)) << 1u16) | (b2 as u16)) << 1u16 | (b3 as u16))
        << 1u16 | (b4 as u16)) << 1u16 | (b5 as u16)) << 1u16 | (b6 as u16)) == s) by (bit_vector)
        requires
            s < 64,
            b1 == ((s >> 5u16) & 1u16) as u8,
            b2 == ((s >> 4u16) & 1u16) as u8,
            b3 == ((s >> 3u16) & 1u16) as u8,
            b4 == ((s >> 2u16) & 1u16) as u8,
            b5 == ((s >> 1u16) & 1u16) as u8,
            b6 == ((s >> 0u16) & 1u16) as u8,
    ;
    let o = m.ssb_subcarrier_offset;
    let c8 = b[8];
    let c9 = b[9];
    let c10 = b[10];
    let c11 = b[11];
    assert(c8 == (o >> 3u8) & 1u8 && c9 == (o >> 2u8) & 1u8 && c10 == (o >> 1u8) & 1u8 && c11 == (o
        >> 0u8) & 1u8);
    assert(fold_u8(b, 8, 12) == ((((((0u8 << 1u8) | c8) << 1u8) | c9) << 1u8 | c10) << 1u8 | c11));
    assert(((((((0u8 << 1u8) | c8) << 1u8) | c9) << 1u8 | c10) << 1u8 | c11) == o) by (bit_vector)
        requires
            o < 16,
            c8 == (o >> 3u8) & 1u8,
            c9 == (o >> 2u8) & 1u8,
            c10 == (o >> 1u8) & 1u8,
            c11 == (o >> 0u8) & 1u8,
    ;
    let p = m.pdcch_config_sib1;
    let d0 = b[13];
    let d1 = b[14];
    let d2 = b[15];
    let d3 = b[16];
    let d4 = b[17];
    let d5 = b[18];
    let d6 = b[19];
    let d7 = b[20];
    assert(d0 == (p >> 7u8) & 1u8 && d1 == (p >> 6u8) & 1u8 && d2 == (p >> 5u8) & 1u8 && d3 == (p
        >> 4u8) & 1u8 && d4 == (p >> 3u8) & 1u8 && d5 == (p >> 2u8) & 1u8 && d6 == (p >> 1u8) & 1u8
        && d7 == (p >> 0u8) & 1u8);
    assert(fold_u8(b, 13, 21) == ((((((((((((((((0u8 << 1u8) | d0) << 1u8) | d1) << 1u8) | d2)
        << 1u8) | d3) << 1u8) | d4) << 1u8) | d5) << 1u8) | d6) << 1u8) | d7));
    assert(((((((((((((((((0u8 << 1u8) | d0) << 1u8) | d1) << 1u8) | d2) << 1u8) | d3) << 1u8)
        | d4) << 1u8) | d5) << 1u8) | d6) << 1u8) | d7) == p) by (bit_vector)
        requires
            d0 == (p >> 7u8) & 1u8,
            d1 == (p >> 6u8) & 1u8,
            d2 == (p >> 5u8) & 1u8,
            d3 == (p >> 4u8) & 1u8,
            d4 == (p >> 3u8) & 1u8,
            d5 == (p >> 2u8) & 1u8,
            d6 == (p >> 1u8) & 1u8,
            d7 == (p >> 0u8) & 1u8,
    ;
    let sp = m.spare;
    assert(sp <= 1 ==> sp & 1u8 == sp) by (bit_vector);
    assert(mib_from_bits(b) =~= m);
}

/// The sequence bit produced before a register step: the XOR of the two
/// feedback bits x1(n+31) and x2(n+31).
pub open spec fn gold_feedback_bit(s: (u32, u32)) -> u8 {
    (((((s.0 >> 3u32) ^ s.0) & 1u32) ^ (((s.1 >> 3u32) ^ (s.1 >> 2u32) ^ (s.1 >> 1u32) ^ s.1)
        & 1u32)) as u8)
}

/// Bit `n` of the PBCH scrambling sequence for `c_init` (x1 seeded with 1,
/// x2 with c_init, 1600 warm-up steps).
pub open spec fn pbch_gold_bit(c_init: u32, n: nat) -> u8 {
    gold_feedback_bit(gold_advance((1u32, c_init), 1600 + n))
}

/// The first `len` bits of the PBCH scrambling sequence.
pub open spec fn pbch_gold_seq(c_init: u32, len: nat) -> Seq<u8> {
    Seq::new(len, |n: int| pbch_gold_bit(c_init, n as nat))
}

/// Generates the first `length` bits of the PBCH scrambling sequence.
fn gold_sequence(c_init: u32, length: usize) -> (s: Vec<u8>)
    requires
        c_init < 0x8000_0000,
    ensures
        s@ == pbch_gold_seq(c_init, length as nat),
{
    let mut x1: u32 = 1;
    let mut x2: u32 = c_init;
    let ghost s0 = (1u32, c_init);
    let mut i: u32 = 0;
    while i < 1600
        invariant
            i <= 1600,
            s0 == (1u32, c_init),
            (x1, x2) == gold_advance(s0, i as nat),
        decreases 1600 - i,
    {
        let x1_new = ((x1 >> 3u32) ^ x1) & 1u32;
        let x2_new = ((x2 >> 3u32) ^ (x2 >> 2u32) ^ (x2 >> 1u32) ^ x2) & 1u32;
        x1 = ((x1 >> 1u32) | (x1_new << 30u32)) & 0x7FFF_FFFFu32;
        x2 = ((x2 >> 1u32) | (x2_new << 30u32)) & 0x7FFF_FFFFu32;
        proof {
            lemma_gold_advance_add(s0, i as nat, 1);
        }
        i = i + 1;
    }
    let mut seq: Vec<u8> = Vec::new();
    let mut n: usize = 0;
    while n < length
        invariant
            n <= length,
            s0 == (1u32, c_init),
            (x1, x2) == gold_advance(s0, 1600 + n as nat),
            seq@.len() == n,
            forall|m: int| 0 <= m < n ==> seq@[m] == pbch_gold_bit(c_init, m as nat),
        decreases length - n,
    {
        let x1_new = ((x1 >> 3u32) ^ x1) & 1u32;
        let x2_new = ((x2 >> 3u32) ^ (x2 >> 2u32) ^ (x2 >> 1u32) ^ x2) & 1u32;
        seq.push((x1_new ^ x2_new) as u8);
        x1 = ((x1 >> 1u32) | (x1_new << 30u32)) & 0x7FFF_FFFFu32;
        x2 = ((x2 >> 1u32) | (x2_new << 30u32)) & 0x7FFF_FFFFu32;
        proof {
            lemma_gold_advance_add(s0, (1600 + n) as nat, 1);
        }
        n = n + 1;
    }
    assert(seq@ =~= pbch_gold_seq(c_init, length as nat));
    seq
}

/// The PBCH payload interleaving pattern G.
pub open spec fn pbch_g() -> Seq<usize> {
    seq![
        16usize, 23, 18, 17, 8, 30, 10, 6, 24, 7, 0, 5, 3, 2, 1, 4, 9, 11, 12, 13, 14, 15, 19, 20,
        21, 22, 25, 26, 27, 28, 29, 31,
    ]
}

/// The inverse of G: the payload field carried at each of the 32 positions.
pub open spec fn pbch_g_inv() -> Seq<nat> {
    seq![
        10nat, 14, 13, 12, 15, 11, 7, 9, 4, 16, 6, 17, 18, 19, 20, 21, 0, 3, 2, 22, 23, 24, 25, 1,
        8, 26, 27, 28, 29, 30, 5, 31,
    ]
}

/// Field `j` of the PBCH payload: the 6 MIB SFN bits, the 4 low SFN bits,
/// the half-frame bit, three zero bits (k_SSB MSB and reserved), then the
/// MIB message-type bit and the remaining 17 MIB bits.
pub open spec fn pbch_field(mib: Seq<u8>, frame: u32, j: nat) -> u8 {
    if j < 6 {
        mib[j + 1 as int]
    } else if j < 10 {
        ((frame >> ((9 - j) as u32)) & 1u32) as u8
    } else if j == 10 {
        ((frame / 5) % 2) as u8
    } else if j < 14 {
        0
    } else if j == 14 {
        mib[0]
    } else {
        mib[j - 8 as int]
    }
}

/// The 32-bit PBCH payload: field j at position G[j].
pub open spec fn pbch_payload(mib: Seq<u8>, frame: u32) -> Seq<u8> {
    Seq::new(32, |p: int| pbch_field(mib, frame, pbch_g_inv()[p]))
}

/// Payload positions left unscrambled: G[7], G[8], G[10], G[11], G[12], G[13].
pub open spec fn pbch_unscrambled(i: int) -> bool {
    i == 6 || i == 24 || i == 0 || i == 5 || i == 3 || i == 2
}

/// Number of scrambled positions before position `i`.
pub open spec fn pbch_scrambled_before(i: int) -> nat
    decreases i,
{
    if i <= 0 {
        0
    } else {
        pbch_scrambled_before(i - 1) + if pbch_unscrambled(i - 1) {
            0nat
        } else {
            1nat
        }
    }
}

/// Selective scrambling of the payload: the sequence for the cell starts at
/// 29 * (2 * bit G[7] + bit G[8]) and is applied to the scrambled positions
/// in order.
pub open spec fn pbch_payload_scrambled(a: Seq<u8>, c_init: u32) -> Seq<u8> {
    let offset = 29 * (2 * a[6] + a[24]);
    Seq::new(
        32,
        |i: int|
            if pbch_unscrambled(i) {
                a[i]
            } else {
                a[i] ^ pbch_gold_bit(c_init, (offset + pbch_scrambled_before(i)) as nat)
            },
    )
}

/// One bit step of the PBCH CRC-24C register.
pub open spec fn crc24c_step(crc: u32, bit: u8) -> u32 {
    let c = crc ^ ((bit as u32) << 23u32);
    (if c & 0x800000 != 0 {
        (c << 1u32) ^ 0x1B2B117u32
    } else {
        c << 1u32
    }) & 0xFFFFFF
}

/// The CRC-24C register after the first `i` bits.
pub open spec fn crc24c_reg(bits: Seq<u8>, i: nat) -> u32
    decreases i,
{
    if i == 0 {
        0
    } else {
        crc24c_step(crc24c_reg(bits, (i - 1) as nat), bits[i - 1])
    }
}

/// The 24 CRC bits of `bits`, most significant first.
pub open spec fn crc24c_bits(bits: Seq<u8>) -> Seq<u8> {
    let crc = crc24c_reg(bits, bits.len());
    Seq::new(24, |i: int| ((crc >> ((23 - i) as u32)) & 1u32) as u8)
}

/// The PBCH rate matching of `n` encoded bits to `e`: repetition, or the
/// first `e` bits.
pub open spec fn pbch_rm(enc: Seq<u8>, e: nat) -> Seq<u8> {
    let n = enc.len();
    if e >= n {
        Seq::new(e, |i: int| enc[i % (n as int)])
    } else {
        enc.take(e as int)
    }
}

/// The 56 coded payload bits polar encoded (K = 56, E = 864, N = 512) and
/// rate matched to 864 bits.
pub open spec fn pbch_channel_encode(payload: Seq<u8>) -> Seq<u8> {
    let info = polar_info_mask(56, 864, 9);
    pbch_rm(polar_transform(polar_allocate(info, payload, 512), 9), 864)
}

/// Cut or zero-pad to 864 bits.
pub open spec fn pbch_fit(bits: Seq<u8>) -> Seq<u8> {
    if bits.len() > 864 {
        bits.take(864)
    } else {
        bits + zero_bits((864 - bits.len()) as nat)
    }
}

/// XOR with the PBCH scrambling sequence of the cell.
pub open spec fn pbch_scrambled(bits: Seq<u8>, c_init: u32) -> Seq<u8> {
    Seq::new(bits.len(), |i: int| bits[i] ^ pbch_gold_bit(c_init, i as nat))
}

/// The 864 transmitted PBCH bits for a MIB and frame in a cell.
pub open spec fn pbch_encode_bits_spec(pci: u16, m: Mib, frame: u32) -> Seq<u8> {
    let a = pbch_payload(mib_bits(m), frame);
    let a2 = pbch_payload_scrambled(a, pci as u32);
    let with_crc = a2 + crc24c_bits(a2);
    pbch_scrambled(pbch_fit(pbch_channel_encode(with_crc)), pci as u32)
}

/// The MIB broadcast in a frame: SFN bits 9..4 of the frame number,
/// 15 kHz common spacing, CORESET#0 index 6 with search space 0.
pub open spec fn generated_mib(frame_number: u32) -> Mib {
    Mib {
        sfn: ((frame_number >> 4u32) & 0x3Fu32) as u16,
        subcarrier_spacing_common: SubcarrierSpacing::Scs15,
        ssb_subcarrier_offset: 0,
        dmrs_type_a_position: DmrsPosition::Pos2,
        pdcch_config_sib1: 0x60,
        cell_barred: false,
        intra_freq_reselection: true,
        spare: 0,
    }
}

/// The code chosen for the PBCH payload is the length-512 code.
proof fn lemma_pbch_code_length()
    ensures
        polar_n_log(56, 864, 9) == 9,
        exp2(9) == 512,
{
    lemma_exp2_values();
    reveal_with_fuel(polar_n_log_from, 6);
}

/// PBCH processing for one cell.
#[derive(Clone)]
pub struct PbchProcessor {
    pci: Pci,
    cell_id: CellId,
    scrambling_cache: Vec<Vec<u8>>,
}

impl PbchProcessor {
    /// The cell's physical identity.
    pub closed spec fn spec_pci(&self) -> Pci {
        self.pci
    }

    /// The cell identity.
    pub closed spec fn spec_cell_id(&self) -> CellId {
        self.cell_id
    }

    /// Creates the processor of a cell.
    pub fn new(pci: Pci, cell_id: CellId) -> (r: Result<Self, LayerError>)
        ensures
            r is Ok,
            r->Ok_0.spec_pci() == pci,
            r->Ok_0.spec_cell_id() == cell_id,
    {
        Ok(PbchProcessor { pci, cell_id, scrambling_cache: Vec::new() })
    }

    /// The MIB for a frame.
    pub fn generate_mib(&self, frame_number: u32) -> (m: Mib)
        ensures
            m == generated_mib(frame_number),
    {
        let mut mib = Mib::new();
        mib.sfn = ((frame_number >> 4u32) & 0x3F) as u16;
        mib.subcarrier_spacing_common = SubcarrierSpacing::Scs15;
        mib.ssb_subcarrier_offset = 0;
        mib.dmrs_type_a_position = DmrsPosition::Pos2;
        mib.pdcch_config_sib1 = (6u8 << 4u8) | 0u8;
        let f = frame_number;
        assert((6u8 << 4u8) | 0u8 == 0x60u8 && ((f >> 4u32) & 0x3Fu32) < 64) by (bit_vector);
        mib.cell_barred = false;
        mib.intra_freq_reselection = true;
        mib
    }

    /// The PBCH scrambling sequence of this cell (first `length` bits).
    pub fn scrambling_sequence(&self, length: usize) -> (s: Vec<u8>)
        requires
            self.spec_pci().0 <= 1007,
        ensures
            s@ == pbch_gold_seq(self.spec_pci().0 as u32, length as nat),
    {
        gold_sequence(self.pci.0 as u32, length)
    }

    /// The 864 scrambled PBCH bits carrying `mib` in `frame_number`, ready
    /// for QPSK modulation.
    pub fn encode_pbch_bits(&self, mib: &Mib, frame_number: u32) -> (r: Vec<u8>)
        requires
            self.spec_pci().0 <= 1007,
        ensures
            r@ == pbch_encode_bits_spec(self.spec_pci().0, *mib, frame_number),
            r@.len() == 864,
    {
        let a = self.generate_pbch_payload(mib, frame_number);
        let a_prime = self.scramble_pbch_payload(&a);
        let payload_with_crc = self.add_crc24(&a_prime);
        let encoded = self.channel_encode(&payload_with_crc);
        let matched = self.rate_match(&encoded);
        self.scramble(&matched)
    }

    /// The 32-bit payload with the G interleaving.
    fn generate_pbch_payload(&self, mib: &Mib, frame_number: u32) -> (a: Vec<u8>)
        ensures
            a@ == pbch_payload(mib_bits(*mib), frame_number),
            forall|i: int| 0 <= i < 32 ==> #[trigger] a@[i] <= 1,
            a@[10] == ((frame_number >> 3u32) & 1u32) as u8,
            a@[6] == ((frame_number >> 2u32) & 1u32) as u8,
            a@[24] == ((frame_number >> 1u32) & 1u32) as u8,
            a@[7] == ((frame_number >> 0u32) & 1u32) as u8,
    {
        let g: Vec<usize> = vec![
            16, 23, 18, 17, 8, 30, 10, 6, 24, 7, 0, 5, 3, 2, 1, 4, 9, 11, 12, 13, 14, 15, 19, 20, 21,
            22, 25, 26, 27, 28, 29, 31,
        ];
        assert(g@ =~= pbch_g());
        let mib_bits_v = mib.encode();
        let ghost mb = mib_bits_v@;
        let mut a: Vec<u8> = Vec::new();
        let mut z: usize = 0;
        while z < 32
            invariant
                z <= 32,
                a@.len() == z,
            decreases 32 - z,
        {
            a.push(0);
            z = z + 1;
        }
        let mut i: usize = 0;
        while i < 24
            invariant
                i <= 24,
                g@ == pbch_g(),
                mb == mib_bits_v@,
                mb == mib_bits(*mib),
                mb.len() == 24,
                a@.len() == 32,
                forall|j: int|
                    0 <= j < 32 && pbch_mib_source(j) < i ==> #[trigger] a@[pbch_g()[j] as int]
                        == pbch_field(mb, frame_number, j as nat),
            decreases 24 - i,
        {
            let ghost before = a@;
            let jj: usize = if i >= 1 && i < 7 {
                i - 1
            } else if i == 0 {
                14
            } else {
                i + 8
            };
            assert(pbch_mib_source(jj as int) == i);
            a.set(g[jj], mib_bits_v[i]);
            proof {
                lemma_pbch_g_distinct(jj as int);
                assert forall|j: int|
                    0 <= j < 32 && pbch_mib_source(j) < i + 1 implies #[trigger] a@[pbch_g()[j] as int]
                        == pbch_field(mb, frame_number, j as nat) by {
                    lemma_pbch_g_distinct(j);
                    if j != jj {
                        assert(a@[pbch_g()[j] as int] == before[pbch_g()[j] as int]);
                    }
                }
            }
            i = i + 1;
        }
        a.set(g[6], ((frame_number >> 3u32) & 1) as u8);
        a.set(g[7], ((frame_number >> 2u32) & 1) as u8);
        a.set(g[8], ((frame_number >> 1u32) & 1) as u8);
        a.set(g[9], ((frame_number >> 0u32) & 1) as u8);
        a.set(g[10], ((frame_number / 5) % 2) as u8);
        a.set(g[11], 0);
        a.set(g[12], 0);
        a.set(g[13], 0);
        proof {
            lemma_pbch_payload_sfn_bits(mb, frame_number);
            lemma_pbch_g_inverse();
            assert forall|p: int| 0 <= p < 32 implies a@[p] == pbch_payload(mb, frame_number)[p] by {
                let j = pbch_g_inv()[p] as int;
                assert(pbch_g()[j] == p);
                lemma_pbch_g_distinct(j);
                if j < 6 || j >= 14 {
                    assert(pbch_mib_source(j) < 24);
                }
            }
            assert forall|i: int| 0 <= i < 32 implies #[trigger] a@[i] <= 1 by {
                let j = pbch_g_inv()[i] as int;
                lemma_mib_bits_binary(*mib);
                let f = frame_number;
                assert(((f >> 3u32) & 1u32) <= 1 && ((f >> 2u32) & 1u32) <= 1 && ((f >> 1u32) & 1u32)
                    <= 1 && ((f >> 0u32) & 1u32) <= 1) by (bit_vector);
                if j < 6 || j >= 14 {
                    assert(pbch_mib_source(j) < 24);
                }
            }
        }
        assert(a@ =~= pbch_payload(mb, frame_number));
        a
    }

    /// Selective scrambling of the payload with the cell's sequence.
    fn scramble_pbch_payload(&self, a: &Vec<u8>) -> (r: Vec<u8>)
        requires
            a@.len() == 32,
            a@[6] <= 1,
            a@[24] <= 1,
            self.spec_pci().0 <= 1007,
        ensures
            r@ == pbch_payload_scrambled(a@, self.spec_pci().0 as u32),
    {
        let v = 2 * a[6] + a[24];
        let offset = 29 * (v as usize);
        let seq = gold_sequence(self.pci.0 as u32, 32 + offset);
        let mut out: Vec<u8> = Vec::new();
        let mut j: usize = 0;
        let mut i: usize = 0;
        while i < 32
            invariant
                i <= 32,
                a@.len() == 32,
                offset == 29 * (2 * a@[6] + a@[24]),
                offset <= 87,
                seq@ == pbch_gold_seq(self.spec_pci().0 as u32, (32 + offset) as nat),
                j == pbch_scrambled_before(i as int),
                j <= i,
                out@.len() == i,
                forall|m: int|
                    0 <= m < i ==> out@[m] == pbch_payload_scrambled(a@, self.spec_pci().0 as u32)[m],
            decreases 32 - i,
        {
            if i == 6 || i == 24 || i == 0 || i == 5 || i == 3 || i == 2 {
                out.push(a[i]);
            } else {
                out.push(a[i] ^ seq[offset + j]);
                j = j + 1;
            }
            i = i + 1;
        }
        assert(out@ =~= pbch_payload_scrambled(a@, self.spec_pci().0 as u32));
        out
    }

    /// Appends the 24 CRC bits, most significant first.
    fn add_crc24(&self, bits: &Vec<u8>) -> (r: Vec<u8>)
        ensures
            r@ == bits@ + crc24c_bits(bits@),
    {
        let crc = calculate_crc24(bits.as_slice());
        let mut payload: Vec<u8> = Vec::new();
        let mut i: usize = 0;
        while i < bits.len()
            invariant
                i <= bits@.len(),
                payload@ == bits@.take(i as int),
            decreases bits@.len() - i,
        {
            payload.push(bits[i]);
            i = i + 1;
            assert(payload@ =~= bits@.take(i as int));
        }
        assert(bits@.take(bits@.len() as int) =~= bits@);
        let mut b: u32 = 24;
        while b > 0
            invariant
                b <= 24,
                crc == crc24c_reg(bits@, bits@.len()),
                payload@ == bits@ + crc24c_bits(bits@).take(24 - b),
            decreases b,
        {
            b = b - 1;
            payload.push(((crc >> b) & 1) as u8);
            assert(payload@ =~= bits@ + crc24c_bits(bits@).take(24 - b));
        }
        assert(crc24c_bits(bits@).take(24) =~= crc24c_bits(bits@));
        payload
    }

    /// Polar encodes the 56 payload bits and rate matches them to 864.
    fn channel_encode(&self, bits: &Vec<u8>) -> (r: Vec<u8>)
        requires
            bits@.len() == 56,
        ensures
            r@ == pbch_channel_encode(bits@),
    {
        let k = bits.len();
        let e: usize = 864;
        proof {
            lemma_pbch_code_length();
        }
        let code = PolarCode::new(k, e, 9);
        let n = code.get_n();
        let mut allocated = zero_vec(n);
        PolarAllocator::allocate(allocated.as_mut_slice(), bits.as_slice(), &code);
        let ghost av = allocated@;
        let mut encoded = zero_vec(n);
        PolarEncoder::encode(encoded.as_mut_slice(), allocated.as_slice(), code.get_n_log());
        assert(av + zero_bits(n as nat).skip(av.len() as int) =~= av);
        proof {
            lemma_polar_transform_len(av, 9);
        }
        let mut out: Vec<u8> = Vec::new();
        let mut i: usize = 0;
        while i < e
            invariant
                i <= e,
                e == 864,
                n == 512,
                encoded@.len() == n,
                out@.len() == i,
                forall|m: int| 0 <= m < i ==> out@[m] == encoded@[m % 512],
            decreases e - i,
        {
            out.push(encoded[i % n]);
            i = i + 1;
        }
        assert(out@ =~= pbch_rm(encoded@, 864));
        out
    }

    /// Cuts or zero-pads to the 864 PBCH bits.
    fn rate_match(&self, bits: &Vec<u8>) -> (r: Vec<u8>)
        ensures
            r@ == pbch_fit(bits@),
            r@.len() == 864,
    {
        let mut matched: Vec<u8> = Vec::new();
        let mut i: usize = 0;
        while i < 864
            invariant
                i <= 864,
                matched@.len() == i,
                forall|m: int|
                    0 <= m < i ==> matched@[m] == (if m < bits@.len() { bits@[m] } else { 0u8 }),
            decreases 864 - i,
        {
            if i < bits.len() {
                matched.push(bits[i]);
            } else {
                matched.push(0);
            }
            i = i + 1;
        }
        assert(matched@ =~= pbch_fit(bits@));
        matched
    }

    /// XOR with the cell's scrambling sequence.
    fn scramble(&self, bits: &Vec<u8>) -> (r: Vec<u8>)
        requires
            self.spec_pci().0 <= 1007,
        ensures
            r@ == pbch_scrambled(bits@, self.spec_pci().0 as u32),
            r@.len() == bits@.len(),
    {
        let seq = gold_sequence(self.pci.0 as u32, bits.len());
        let mut out: Vec<u8> = Vec::new();
        let mut i: usize = 0;
        while i < bits.len()
            invariant
                i <= bits@.len(),
                seq@ == pbch_gold_seq(self.spec_pci().0 as u32, bits@.len() as nat),
                out@.len() == i,
                forall|m: int|
                    0 <= m < i ==> out@[m] == pbch_scrambled(bits@, self.spec_pci().0 as u32)[m],
            decreases bits@.len() - i,
        {
            out.push(bits[i] ^ seq[i]);
            i = i + 1;
        }
        assert(out@ =~= pbch_scrambled(bits@, self.spec_pci().0 as u32));
        out
    }
}

/// The MIB bit that fills payload field `j` (24 for the fields that carry
/// no MIB bit).
pub open spec fn pbch_mib_source(j: int) -> int {
    if j < 6 {
        j + 1
    } else if j < 14 {
        24
    } else if j == 14 {
        0
    } else {
        j - 8
    }
}

/// Each bit read out of the MIB fields is 0 or 1.
proof fn lemma_field_bits_are_bits(s: u16, o: u8, p: u8, sp: u8)
    by (bit_vector)
    ensures
        forall|k: u16| #[trigger] ((s >> k) & 1u16) <= 1,
        forall|k: u8| #[trigger] ((o >> k) & 1u8) <= 1,
        forall|k: u8| #[trigger] ((p >> k) & 1u8) <= 1,
        sp & 1u8 <= 1,
{
}

/// MIB bits are 0 or 1.
proof fn lemma_mib_bits_binary(m: Mib)
    ensures
        forall|i: int| 0 <= i < 24 ==> #[trigger] mib_bits(m)[i] <= 1,
{
    let b = mib_bits(m);
    let s = m.sfn;
    let o = m.ssb_subcarrier_offset;
    let p = m.pdcch_config_sib1;
    let sp = m.spare;
    lemma_field_bits_are_bits(s, o, p, sp);
    assert forall|i: int| 0 <= i < 24 implies #[trigger] mib_bits(m)[i] <= 1 by {
        if 1 <= i < 7 {
            assert(b[i] == msb_bits_u16(s, 6)[i - 1]);
        } else if 8 <= i < 12 {
            assert(b[i] == msb_bits_u8(o, 4)[i - 8]);
        } else if 13 <= i < 21 {
            assert(b[i] == msb_bits_u8(p, 8)[i - 13]);
        }
    }
}

/// The CRC-24C register over all bits.
fn calculate_crc24(bits: &[u8]) -> (crc: u32)
    ensures
        crc == crc24c_reg(bits@, bits@.len()),
{
    let mut crc: u32 = 0;
    let mut i: usize = 0;
    while i < bits.len()
        invariant
            i <= bits@.len(),
            crc == crc24c_reg(bits@, i as nat),
        decreases bits@.len() - i,
    {
        crc = crc ^ ((bits[i] as u32) << 23u32);
        if crc & 0x800000 != 0 {
            crc = (crc << 1u32) ^ 0x1B2B117u32;
        } else {
            crc = crc << 1u32;
        }
        crc = crc & 0xFFFFFF;
        i = i + 1;
    }
    crc
}

/// A vector of `len` zero bits.
fn zero_vec(len: usize) -> (v: Vec<u8>)
    ensures
        v@ == zero_bits(len as nat),
{
    let mut v: Vec<u8> = Vec::new();
    let mut i: usize = 0;
    while i < len
        invariant
            i <= len,
            v@.len() == i,
            forall|m: int| 0 <= m < i ==> v@[m] == 0,
        decreases len - i,
    {
        v.push(0);
        i = i + 1;
    }
    assert(v@ =~= zero_bits(len as nat));
    v
}

/// G and its inverse table undo each other.
proof fn lemma_pbch_g_inverse()
    ensures
        forall|p: int|
            0 <= p < 32 ==> pbch_g_inv()[p] < 32 && #[trigger] pbch_g()[pbch_g_inv()[p] as int] == p,
{
    let gi = pbch_g_inv();
    let g = pbch_g();
    assert(gi.len() == 32 && g.len() == 32);
}

/// Distinct fields sit at distinct positions of G.
proof fn lemma_pbch_g_distinct(j: int)
    requires
        0 <= j < 32,
    ensures
        pbch_g()[j] < 32,
        forall|j2: int| 0 <= j2 < 32 && j2 != j ==> pbch_g()[j2] != pbch_g()[j],
{
    let g = pbch_g();
    assert(g.len() == 32);
}

/// Sum and count of the received bits at positions j, j + n, j + 2n, ...
pub open spec fn rep_stats(h: Seq<u8>, n: nat, j: nat) -> (int, int)
    decreases shortfall(j, h.len()),
{
    if n == 0 || j >= h.len() {
        (0, 0)
    } else {
        let r = rep_stats(h, n, j + n);
        (r.0 + h[j as int], r.1 + 1)
    }
}

/// Rate recovery of `e` received hard bits to `n` code bits: a majority
/// vote over the repetitions when e >= n, otherwise the bits followed by
/// zeros.
pub open spec fn pbch_dematch(h: Seq<u8>, n: nat) -> Seq<u8> {
    if h.len() >= n {
        Seq::new(
            n,
            |i: int|
                if rep_stats(h, n, i as nat).0 > rep_stats(h, n, i as nat).1 / 2 {
                    1u8
                } else {
                    0u8
                },
        )
    } else {
        h + zero_bits((n - h.len()) as nat)
    }
}

/// The values at the information positions among the first `i` positions,
/// in order.
pub open spec fn info_values(info: Seq<bool>, d: Seq<u8>, i: nat) -> Seq<u8>
    decreases i,
{
    if i == 0 {
        Seq::empty()
    } else {
        let prev = info_values(info, d, (i - 1) as nat);
        if info[i - 1] {
            prev.push(d[i - 1])
        } else {
            prev
        }
    }
}

/// Cut or zero-pad to `k` entries.
pub open spec fn fit_to(x: Seq<u8>, k: nat) -> Seq<u8> {
    if x.len() >= k {
        x.take(k as int)
    } else {
        x + zero_bits((k - x.len()) as nat)
    }
}

/// The 56 payload bits recovered from `e` received hard bits: rate
/// recovery, then the values at the information positions of the code for
/// K = 56 and E = e.
pub open spec fn pbch_decoded(h: Seq<u8>) -> Seq<u8> {
    let nl = polar_n_log(56, h.len(), 9);
    let n = exp2(nl);
    let info = polar_info_mask(56, h.len(), 9);
    fit_to(info_values(info, pbch_dematch(h, n), n), 56)
}

/// The 24 bits after the first 32 are the CRC-24C of those 32.
pub open spec fn pbch_crc_ok(d: Seq<u8>) -> bool {
    d.subrange(32, 56) == crc24c_bits(d.take(32))
}

/// A payload with its CRC attached passes the CRC check.
pub proof fn lemma_pbch_crc_accepts(a: Seq<u8>)
    requires
        a.len() == 32,
    ensures
        pbch_crc_ok(a + crc24c_bits(a)),
{
    let d = a + crc24c_bits(a);
    assert(d.take(32) =~= a);
    assert(d.subrange(32, 56) =~= crc24c_bits(a));
}

/// The CRC step keeps the register within 24 bits, adds bits over GF(2)
/// (`step(r1 ^ r2, b1 ^ b2) == step(r1, b1) ^ step(r2, b2)`), and moves a
/// nonzero register to a nonzero register when the bit is 0.
proof fn lemma_crc24c_step_facts(r1: u32, r2: u32, b1: u8, b2: u8)
    requires
        r1 < 0x1000000,
        r2 < 0x1000000,
        b1 <= 1,
        b2 <= 1,
    ensures
        crc24c_step(r1, b1) < 0x1000000,
        crc24c_step(r1 ^ r2, b1 ^ b2) == crc24c_step(r1, b1) ^ crc24c_step(r2, b2),
        r1 != 0 ==> crc24c_step(r1, 0) != 0,
        crc24c_step(0, 0) == 0,
        crc24c_step(0, 1) != 0,
{
    let x1 = b1 as u32;
    let x2 = b2 as u32;
    assert((x1 ^ x2) == (b1 ^ b2) as u32) by (bit_vector)
        requires
            x1 == b1 as u32,
            x2 == b2 as u32,
    ;
    assert(({
        let c = r1 ^ (x1 << 23u32);
        (if c & 0x800000 != 0 { (c << 1u32) ^ 0x1B2B117u32 } else { c << 1u32 }) & 0xFFFFFF
    }) < 0x1000000) by (bit_vector);
    assert(({
        let c = (r1 ^ r2) ^ ((x1 ^ x2) << 23u32);
        (if c & 0x800000 != 0 { (c << 1u32) ^ 0x1B2B117u32 } else { c << 1u32 }) & 0xFFFFFF
    }) == ({
        let c = r1 ^ (x1 << 23u32);
        (if c & 0x800000 != 0 { (c << 1u32) ^ 0x1B2B117u32 } else { c << 1u32 }) & 0xFFFFFF
    }) ^ ({
        let c = r2 ^ (x2 << 23u32);
        (if c & 0x800000 != 0 { (c << 1u32) ^ 0x1B2B117u32 } else { c << 1u32 }) & 0xFFFFFF
    })) by (bit_vector)
        requires
            r1 < 0x1000000,
            r2 < 0x1000000,
            x1 <= 1,
            x2 <= 1,
    ;
    assert(r1 != 0 ==> ({
        let c = r1 ^ (0u32 << 23u32);
        (if c & 0x800000 != 0 { (c << 1u32) ^ 0x1B2B117u32 } else { c << 1u32 }) & 0xFFFFFF
    }) != 0) by (bit_vector)
        requires
            r1 < 0x1000000,
    ;
    assert(({
        let c = 0u32 ^ (1u32 << 23u32);
        (if c & 0x800000 != 0 { (c << 1u32) ^ 0x1B2B117u32 } else { c << 1u32 }) & 0xFFFFFF
    }) != 0) by (bit_vector);
    assert(({
        let c = 0u32 ^ (0u32 << 23u32);
        (if c & 0x800000 != 0 { (c << 1u32) ^ 0x1B2B117u32 } else { c << 1u32 }) & 0xFFFFFF
    }) == 0) by (bit_vector);
}

/// Bitwise sum over GF(2) of two bit sequences.
pub open spec fn xor_bits(x: Seq<u8>, y: Seq<u8>) -> Seq<u8> {
    Seq::new(x.len(), |i: int| x[i] ^ y[i])
}

/// The CRC register stays within 24 bits and is linear over GF(2) in the
/// bits.
proof fn lemma_crc24c_reg_linear(x: Seq<u8>, y: Seq<u8>, i: nat)
    requires
        x.len() == y.len(),
        i <= x.len(),
        forall|k: int| 0 <= k < x.len() ==> #[trigger] x[k] <= 1 && y[k] <= 1,
    ensures
        crc24c_reg(x, i) < 0x1000000,
        crc24c_reg(y, i) < 0x1000000,
        crc24c_reg(xor_bits(x, y), i) == crc24c_reg(x, i) ^ crc24c_reg(y, i),
    decreases i,
{
    if i > 0 {
        lemma_crc24c_reg_linear(x, y, (i - 1) as nat);
        let k = i - 1;
        assert(x[k] <= 1 && y[k] <= 1);
        let rx = crc24c_reg(x, (i - 1) as nat);
        let ry = crc24c_reg(y, (i - 1) as nat);
        lemma_crc24c_step_facts(rx, ry, x[k], y[k]);
        lemma_crc24c_step_facts(ry, rx, y[k], x[k]);
        assert(xor_bits(x, y)[k] == x[k] ^ y[k]);
        assert(crc24c_reg(xor_bits(x, y), i) == crc24c_step(crc24c_reg(xor_bits(x, y), (i - 1) as nat), xor_bits(x, y)[k]));
    } else {
        assert(0u32 ^ 0u32 == 0u32) by (bit_vector);
    }
}

/// The unit bit sequence with a 1 at `j`.
pub open spec fn unit_bits(len: nat, j: int) -> Seq<u8> {
    Seq::new(len, |i: int| if i == j { 1u8 } else { 0u8 })
}

/// The CRC register of a unit sequence is 0 before its 1 and nonzero from
/// then on.
proof fn lemma_crc24c_unit(len: nat, j: int, i: nat)
    requires
        0 <= j < len,
        i <= len,
    ensures
        crc24c_reg(unit_bits(len, j), i) < 0x1000000,
        i <= j ==> crc24c_reg(unit_bits(len, j), i) == 0,
        i > j ==> crc24c_reg(unit_bits(len, j), i) != 0,
    decreases i,
{
    if i > 0 {
        lemma_crc24c_unit(len, j, (i - 1) as nat);
        let u = unit_bits(len, j);
        let r = crc24c_reg(u, (i - 1) as nat);
        lemma_crc24c_step_facts(r, 0, u[i - 1], 0);
    }
}

/// Two 24-bit values with the same 24 CRC bits are equal.
proof fn lemma_crc_bits_injective(x: u32, y: u32)
    requires
        x < 0x1000000,
        y < 0x1000000,
        Seq::new(24, |i: int| ((x >> ((23 - i) as u32)) & 1u32) as u8) == Seq::new(
            24,
            |i: int| ((y >> ((23 - i) as u32)) & 1u32) as u8,
        ),
    ensures
        x == y,
{
    let sx = Seq::new(24, |i: int| ((x >> ((23 - i) as u32)) & 1u32) as u8);
    let sy = Seq::new(24, |i: int| ((y >> ((23 - i) as u32)) & 1u32) as u8);
    assert(sx[0] == sy[0]);
    assert(sx[1] == sy[1]);
    assert(sx[2] == sy[2]);
    assert(sx[3] == sy[3]);
    assert(sx[4] == sy[4]);
    assert(sx[5] == sy[5]);
    assert(sx[6] == sy[6]);
    assert(sx[7] == sy[7]);
    assert(sx[8] == sy[8]);
    assert(sx[9] == sy[9]);
    assert(sx[10] == sy[10]);
    assert(sx[11] == sy[11]);
    assert(sx[12] == sy[12]);
    assert(sx[13] == sy[13]);
    assert(sx[14] == sy[14]);
    assert(sx[15] == sy[15]);
    assert(sx[16] == sy[16]);
    assert(sx[17] == sy[17]);
    assert(sx[18] == sy[18]);
    assert(sx[19] == sy[19]);
    assert(sx[20] == sy[20]);
    assert(sx[21] == sy[21]);
    assert(sx[22] == sy[22]);
    assert(sx[23] == sy[23]);
    assert forall|i: int| 0 <= i < 24 implies #[trigger] sx[i] == ((x >> ((23 - i) as u32)) & 1u32) && sy[i] == ((y >> ((23 - i) as u32)) & 1u32) by {
        let sh = (23 - i) as u32;
        let a = (x >> sh) & 1u32;
        let b = (y >> sh) & 1u32;
        assert(a <= 1 && b <= 1) by (bit_vector)
            requires
                a == (x >> sh) & 1u32,
                b == (y >> sh) & 1u32,
        ;
    }
    assert(x == y) by (bit_vector)
        requires
            x < 0x1000000,
            y < 0x1000000,
            (x >> 23u32) & 1 == (y >> 23u32) & 1,
            (x >> 22u32) & 1 == (y >> 22u32) & 1,
            (x >> 21u32) & 1 == (y >> 21u32) & 1,
            (x >> 20u32) & 1 == (y >> 20u32) & 1,
            (x >> 19u32) & 1 == (y >> 19u32) & 1,
            (x >> 18u32) & 1 == (y >> 18u32) & 1,
            (x >> 17u32) & 1 == (y >> 17u32) & 1,
            (x >> 16u32) & 1 == (y >> 16u32) & 1,
            (x >> 15u32) & 1 == (y >> 15u32) & 1,
            (x >> 14u32) & 1 == (y >> 14u32) & 1,
            (x >> 13u32) & 1 == (y >> 13u32) & 1,
            (x >> 12u32) & 1 == (y >> 12u32) & 1,
            (x >> 11u32) & 1 == (y >> 11u32) & 1,
            (x >> 10u32) & 1 == (y >> 10u32) & 1,
            (x >> 9u32) & 1 == (y >> 9u32) & 1,
            (x >> 8u32) & 1 == (y >> 8u32) & 1,
            (x >> 7u32) & 1 == (y >> 7u32) & 1,
            (x >> 6u32) & 1 == (y >> 6u32) & 1,
            (x >> 5u32) & 1 == (y >> 5u32) & 1,
            (x >> 4u32) & 1 == (y >> 4u32) & 1,
            (x >> 3u32) & 1 == (y >> 3u32) & 1,
            (x >> 2u32) & 1 == (y >> 2u32) & 1,
            (x >> 1u32) & 1 == (y >> 1u32) & 1,
            (x >> 0u32) & 1 == (y >> 0u32) & 1,
    ;
}

/// A PBCH payload (32 bits, each 0 or 1) followed by its CRC fails the CRC
/// check once any single one of its 56 bits is flipped.
pub proof fn lemma_pbch_crc_catches_single_flip(a: Seq<u8>, k: int)
    requires
        a.len() == 32,
        forall|i: int| 0 <= i < 32 ==> #[trigger] a[i] <= 1,
        0 <= k < 56,
    ensures
        ({
            let d = a + crc24c_bits(a);
            !pbch_crc_ok(d.update(k, (1 - d[k]) as u8))
        }),
{
    let d = a + crc24c_bits(a);
    let f = d.update(k, (1 - d[k]) as u8);
    let crc = crc24c_reg(a, 32);
    assert forall|i: int| 0 <= i < 24 implies #[trigger] crc24c_bits(a)[i] <= 1 by {
        let sh = (23 - i) as u32;
        let b = (crc >> sh) & 1u32;
        assert(b <= 1) by (bit_vector)
            requires
                b == (crc >> sh) & 1u32,
        ;
    }
    if k >= 32 {
        assert(f.take(32) =~= a);
        assert(f.subrange(32, 56)[k - 32] != crc24c_bits(a)[k - 32]);
    } else {
        let a2 = f.take(32);
        let e = unit_bits(32, k);
        assert(a2 =~= xor_bits(a, e)) by {
            assert forall|i: int| 0 <= i < 32 implies #[trigger] a2[i] == xor_bits(a, e)[i] by {
                let x = a[i];
                if i == k {
                    assert((1 - x) as u8 == x ^ 1u8) by (bit_vector)
                        requires
                            x <= 1,
                    ;
                } else {
                    assert(x == x ^ 0u8) by (bit_vector);
                }
            }
        }
        assert forall|i: int| 0 <= i < 32 implies #[trigger] a[i] <= 1 && e[i] <= 1 by {}
        lemma_crc24c_reg_linear(a, e, 32);
        lemma_crc24c_unit(32, k, 32);
        let c2 = crc24c_reg(a2, 32);
        let ce = crc24c_reg(e, 32);
        assert(c2 == crc ^ ce);
        assert(crc ^ ce != crc) by (bit_vector)
            requires
                ce != 0,
        ;
        assert(f.subrange(32, 56) =~= crc24c_bits(a));
        if pbch_crc_ok(f) {
            assert(crc24c_bits(a) == crc24c_bits(a2));
            lemma_crc24c_reg_linear(a2, a2, 32);
            lemma_crc_bits_injective(crc, c2);
        }
    }
}

impl PbchProcessor {
    /// Decodes hard-decision PBCH bits (descrambled, 1 for a negative soft
    /// value): the MIB and the 4 SFN bits of the extra payload when the CRC
    /// matches, `CrcFailed` otherwise.
    pub fn decode_pbch_bits(&self, hard_bits: &[u8]) -> (r: Result<(Mib, u8), LayerError>)
        requires
            255 * hard_bits@.len() <= i32::MAX,
        ensures
            pbch_crc_ok(pbch_decoded(hard_bits@)) ==> r == Ok::<(Mib, u8), LayerError>(
                (
                    mib_from_bits(pbch_decoded(hard_bits@).take(24)),
                    fold_u8(pbch_decoded(hard_bits@), 24, 28),
                ),
            ),
            !pbch_crc_ok(pbch_decoded(hard_bits@)) ==> r == Err::<(Mib, u8), LayerError>(
                LayerError::CrcFailed,
            ),
    {
        let decoded = self.channel_decode(hard_bits);
        let mib_bits_v = match self.check_crc(&decoded) {
            Ok(v) => v,
            Err(e) => {
                return Err(e);
            },
        };
        let mut sfn: u8 = 0;
        let mut i: usize = 24;
        while i < 28
            invariant
                24 <= i <= 28,
                decoded@.len() == 56,
                sfn == fold_u8(decoded@, 24, i as int),
            decreases 28 - i,
        {
            sfn = (sfn << 1u8) | decoded[i];
            i = i + 1;
        }
        match Mib::decode(mib_bits_v.as_slice()) {
            Ok(mib) => Ok((mib, sfn)),
            Err(e) => Err(e),
        }
    }

    /// Recovers the 56 payload bits from hard-decision bits.
    fn channel_decode(&self, hard_bits: &[u8]) -> (r: Vec<u8>)
        requires
            255 * hard_bits@.len() <= i32::MAX,
        ensures
            r@ == pbch_decoded(hard_bits@),
            r@.len() == 56,
    {
        let e = hard_bits.len();
        let k: usize = 56;
        proof {
            lemma_exp2_values();
            lemma_polar_n_log_fits(56, e as nat, 9);
        }
        let code = PolarCode::new(k, e, 9);
        let n = code.get_n();
        proof {
            crate::common::math::lemma_exp2_le(code.spec_n_log(), 9);
        }
        let ghost h = hard_bits@;
        let mut dematched: Vec<u8> = Vec::new();
        if e >= n {
            let mut i: usize = 0;
            while i < n
                invariant
                    i <= n,
                    n > 0,
                    n <= 512,
                    e == h.len(),
                    h == hard_bits@,
                    e >= n,
                    255 * e <= i32::MAX,
                    dematched@.len() == i,
                    forall|m: int| 0 <= m < i ==> dematched@[m] == pbch_dematch(h, n as nat)[m],
                decreases n - i,
            {
                let mut count: i32 = 0;
                let mut sum: i32 = 0;
                let mut j: usize = i;
                while j < e
                    invariant
                        i <= j,
                        n > 0,
                        e == h.len(),
                        h == hard_bits@,
                        255 * e <= i32::MAX,
                        n <= 512,
                        0 <= count <= j,
                        0 <= sum <= 255 * count,
                        rep_stats(h, n as nat, i as nat) == (sum + rep_stats(h, n as nat, j as nat).0, count
                            + rep_stats(h, n as nat, j as nat).1),
                    decreases e - j,
                {
                    sum = sum + hard_bits[j] as i32;
                    count = count + 1;
                    if j + n > e {
                        assert(rep_stats(h, n as nat, (j + n) as nat) == (0int, 0int));
                        j = e;
                        assert(rep_stats(h, n as nat, j as nat) == (0int, 0int));
                    } else {
                        j = j + n;
                    }
                }
                proof {
                    assert(rep_stats(h, n as nat, j as nat) == (0int, 0int));
                }
                dematched.push(if sum > count / 2 { 1 } else { 0 });
                i = i + 1;
            }
        } else {
            let mut i: usize = 0;
            while i < n
                invariant
                    i <= n,
                    e < n,
                    e == h.len(),
                    h == hard_bits@,
                    dematched@.len() == i,
                    forall|m: int| 0 <= m < i ==> dematched@[m] == pbch_dematch(h, n as nat)[m],
                decreases n - i,
            {
                if i < e {
                    dematched.push(hard_bits[i]);
                } else {
                    dematched.push(0);
                }
                i = i + 1;
            }
        }
        assert(dematched@ =~= pbch_dematch(h, n as nat));
        let ghost info = code.spec_info();
        let frozen_bits = code.get_frozen_bits();
        let ghost d = dematched@;
        let mut decoded: Vec<u8> = Vec::new();
        let mut i: usize = 0;
        while i < frozen_bits.len()
            invariant
                i <= frozen_bits@.len(),
                frozen_bits@ == info,
                k == 56,
                info.len() == n,
                d == dematched@,
                d.len() == n,
                decoded@ == (if info_values(info, d, i as nat).len() <= 56 {
                    info_values(info, d, i as nat)
                } else {
                    info_values(info, d, i as nat).take(56)
                }),
            decreases frozen_bits@.len() - i,
        {
            let ghost prev = info_values(info, d, i as nat);
            if frozen_bits[i] && decoded.len() < k {
                decoded.push(dematched[i]);
            }
            proof {
                let next = info_values(info, d, (i + 1) as nat);
                if prev.len() > 56 {
                    assert(next.take(56) =~= prev.take(56));
                } else if prev.len() == 56 && info[i as int] {
                    assert(next.take(56) =~= prev);
                }
            }
            i = i + 1;
        }
        let ghost x = info_values(info, d, n as nat);
        while decoded.len() < k
            invariant
                k == 56,
                x.len() < 56 ==> decoded@ == x + zero_bits((decoded@.len() - x.len()) as nat),
                x.len() >= 56 ==> decoded@ == x.take(56),
                decoded@.len() <= 56,
            decreases k - decoded@.len(),
        {
            let ghost before = decoded@;
            decoded.push(0);
            assert(decoded@ =~= x + zero_bits((decoded@.len() - x.len()) as nat));
        }
        assert(decoded@ =~= fit_to(x, 56));
        decoded
    }

    /// Checks the CRC of the 56 decoded bits and gives the 24 MIB bits; an
    /// `InvalidConfiguration` error for another length.
    fn check_crc(&self, bits: &Vec<u8>) -> (r: Result<Vec<u8>, LayerError>)
        ensures
            bits@.len() == 56 && pbch_crc_ok(bits@) ==> r is Ok && r->Ok_0@ == bits@.take(24),
            bits@.len() == 56 && !pbch_crc_ok(bits@) ==> r == Err::<Vec<u8>, LayerError>(LayerError::CrcFailed),
            bits@.len() != 56 ==> r is Err && r->Err_0 is InvalidConfiguration
                && r->Err_0->InvalidConfiguration_0@ == pbch_payload_size_text(bits@.len()),
    {
        if bits.len() != 56 {
            return Err(LayerError::InvalidConfiguration(pbch_payload_size_message(bits.len())));
        }
        let mut a_bar: Vec<u8> = Vec::new();
        let mut i: usize = 0;
        while i < 32
            invariant
                i <= 32,
                bits@.len() == 56,
                a_bar@ == bits@.take(i as int),
            decreases 32 - i,
        {
            a_bar.push(bits[i]);
            i = i + 1;
            assert(a_bar@ =~= bits@.take(i as int));
        }
        let calculated = calculate_crc24(a_bar.as_slice());
        let mut crc_ok = true;
        let mut i: usize = 0;
        while i < 24
            invariant
                i <= 24,
                bits@.len() == 56,
                a_bar@ == bits@.take(32),
                calculated == crc24c_reg(a_bar@, a_bar@.len()),
                crc_ok == (forall|m: int| 0 <= m < i ==> bits@[32 + m] == crc24c_bits(a_bar@)[m]),
            decreases 24 - i,
        {
            let expected = ((calculated >> ((23 - i) as u32)) & 1) as u8;
            assert(crc24c_bits(a_bar@)[i as int] == expected);
            if bits[32 + i] != expected {
                crc_ok = false;
            }
            i = i + 1;
        }
        if crc_ok {
            assert(bits@.subrange(32, 56) =~= crc24c_bits(bits@.take(32)));
            let mut out: Vec<u8> = Vec::new();
            let mut i: usize = 0;
            while i < 24
                invariant
                    i <= 24,
                    bits@.len() == 56,
                    out@ == bits@.take(i as int),
                decreases 24 - i,
            {
                out.push(bits[i]);
                i = i + 1;
                assert(out@ =~= bits@.take(i as int));
            }
            Ok(out)
        } else {
            proof {
                if pbch_crc_ok(bits@) {
                    let m = choose|m: int| 0 <= m < 24 && bits@[32 + m] != crc24c_bits(a_bar@)[m];
                    assert(bits@.subrange(32, 56)[m] == bits@[32 + m]);
                }
            }
            Err(LayerError::CrcFailed)
        }
    }
}

} // verus!
