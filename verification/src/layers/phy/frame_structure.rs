//! Frame structure: slot numerology, SSB timing (Case A) and TDD symbol
//! directions.
use vstd::prelude::*;
use crate::common::types::{SubcarrierSpacing, scs_khz};
use crate::layers::phy::{CyclicPrefix, DuplexMode};

verus! {

/// Slot numerology for a subcarrier spacing.
#[derive(Debug, Clone, Copy, PartialEq, Eq, Structural)]
pub struct SlotConfig {
    /// Subcarrier spacing
    pub scs: SubcarrierSpacing,
    /// Slots per 1 ms subframe
    pub slots_per_subframe: u8,
    /// Slots per 10 ms frame
    pub slots_per_frame: u8,
    /// OFDM symbols per slot
    pub symbols_per_slot: u8,
    /// Slot duration in microseconds
    pub slot_duration_us: u32,
}

/// Slots per subframe at a spacing: spacing / 15 kHz.
pub open spec fn slots_per_subframe_spec(scs: SubcarrierSpacing) -> nat {
    (scs_khz(scs) / 15) as nat
}

/// Slot duration in nanoseconds: 1 ms over the slots per subframe (exact:
/// 62 500 ns at 240 kHz).
pub open spec fn slot_duration_ns_spec(scs: SubcarrierSpacing) -> nat {
    1_000_000nat / slots_per_subframe_spec(scs)
}

/// Slot duration in whole microseconds: 1000 / slots per subframe, rounded
/// down (62 at 240 kHz).
pub open spec fn slot_duration_us_spec(scs: SubcarrierSpacing) -> nat {
    1000nat / slots_per_subframe_spec(scs)
}

impl SlotConfig {
    /// The slot numerology for `scs`; 12 symbols per slot with extended
    /// cyclic prefix, 14 otherwise.
    pub fn from_scs(scs: SubcarrierSpacing, extended_cp: bool) -> (c: Self)
        ensures
            c.scs == scs,
            c.slots_per_subframe == slots_per_subframe_spec(scs),
            c.slots_per_frame == 10 * slots_per_subframe_spec(scs),
            c.symbols_per_slot == (if extended_cp { 12u8 } else { 14u8 }),
            c.slot_duration_us == slot_duration_us_spec(scs),
    {
        let (slots_per_subframe, slot_duration_us): (u8, u32) = match scs {
            SubcarrierSpacing::Scs15 => (1, 1000),
            SubcarrierSpacing::Scs30 => (2, 500),
            SubcarrierSpacing::Scs60 => (4, 250),
            SubcarrierSpacing::Scs120 => (8, 125),
            SubcarrierSpacing::Scs240 => (16, 62),
        };
        let symbols_per_slot: u8 = if extended_cp { 12 } else { 14 };
        proof {
            assert(1000nat / 1 == 1000 && 1000nat / 2 == 500 && 1000nat / 4 == 250 && 1000nat / 8
                == 125 && 1000nat / 16 == 62);
        }
        SlotConfig {
            scs,
            slots_per_subframe,
            slots_per_frame: slots_per_subframe * 10,
            symbols_per_slot,
            slot_duration_us,
        }
    }
}

/// Direction of a symbol.
#[derive(Debug, Clone, Copy, PartialEq, Eq, Structural)]
pub enum SymbolType {
    /// Downlink symbol
    Downlink,
    /// Uplink symbol
    Uplink,
    /// Flexible symbol
    Flexible,
    /// Guard period
    Guard,
}

/// A span of time.
pub uninterp spec fn duration_of_nanos(ns: u64) -> std::time::Duration;

/// Wraps `std::time::Duration::from_nanos`: the duration of `ns`
/// nanoseconds.
#[verifier::external_body]
fn duration_from_nanos(ns: u64) -> (d: std::time::Duration)
    ensures
        d == duration_of_nanos(ns),
{
    std::time::Duration::from_nanos(ns)
}

/// Frame structure of a carrier: numerology, cyclic prefix, duplexing.
#[derive(Debug, Clone, Copy, PartialEq, Eq, Structural)]
pub struct FrameStructure {
    slot_config: SlotConfig,
    cyclic_prefix: CyclicPrefix,
    duplex_mode: DuplexMode,
}

/// SSBs are sent in even frames (a 20 ms period).
pub open spec fn ssb_frame(frame: u32) -> bool {
    frame % 2 == 0
}

/// The Case A SSB index for a slot and symbol: SSBs 0/1 at symbols 2..=5 and
/// 8..=11 of slot 0, SSBs 2/3 at the same symbols of slot 1.
pub open spec fn ssb_index_spec(slot: u8, symbol: u8) -> Option<u8> {
    if slot <= 1 && 2 <= symbol <= 5 {
        Some((2 * slot) as u8)
    } else if slot <= 1 && 8 <= symbol <= 11 {
        Some((2 * slot + 1) as u8)
    } else {
        None
    }
}

/// Cyclic prefix samples of a symbol at an FFT size (rounded up): 160/2048
/// of the FFT size for symbol 0 and 144/2048 otherwise with normal CP,
/// 512/2048 for every symbol with extended CP.
pub open spec fn cp_samples(cp: CyclicPrefix, fft_size: nat, symbol_in_slot: u8) -> nat {
    let num: nat = match cp {
        CyclicPrefix::Normal => if symbol_in_slot == 0 {
            160
        } else {
            144
        },
        CyclicPrefix::Extended => 512,
    };
    (fft_size * num + 2047) / 2048
}

/// Symbol direction under a duplex mode. In TDD: downlink slots first,
/// then special slots (symbols 0..=9 downlink, 10..=11 guard, 12.. uplink),
/// then uplink slots, flexible after.
pub open spec fn symbol_type_spec(mode: DuplexMode, slot: u8, symbol: u8) -> SymbolType {
    match mode {
        DuplexMode::Fdd => SymbolType::Downlink,
        DuplexMode::Tdd { pattern } => {
            if slot < pattern.dl_slots {
                SymbolType::Downlink
            } else if slot < pattern.dl_slots + pattern.special_slots {
                if symbol < 10 {
                    SymbolType::Downlink
                } else if symbol >= 12 {
                    SymbolType::Uplink
                } else {
                    SymbolType::Guard
                }
            } else if slot < pattern.dl_slots + pattern.special_slots + pattern.ul_slots {
                SymbolType::Uplink
            } else {
                SymbolType::Flexible
            }
        },
    }
}

impl FrameStructure {
    /// Slot numerology.
    pub closed spec fn spec_slot_config(&self) -> SlotConfig {
        self.slot_config
    }

    /// Cyclic prefix.
    pub closed spec fn spec_cyclic_prefix(&self) -> CyclicPrefix {
        self.cyclic_prefix
    }

    /// Duplex mode.
    pub closed spec fn spec_duplex_mode(&self) -> DuplexMode {
        self.duplex_mode
    }

    /// A frame structure for `scs` and `cyclic_prefix`, FDD until set
    /// otherwise.
    pub fn new(scs: SubcarrierSpacing, cyclic_prefix: CyclicPrefix) -> (f: Self)
        ensures
            f.spec_slot_config().scs == scs,
            f.spec_slot_config().slots_per_subframe == slots_per_subframe_spec(scs),
            f.spec_slot_config().slots_per_frame == 10 * slots_per_subframe_spec(scs),
            f.spec_slot_config().symbols_per_slot == (if cyclic_prefix == CyclicPrefix::Extended {
                12u8
            } else {
                14u8
            }),
            f.spec_slot_config().slot_duration_us == slot_duration_us_spec(scs),
            f.spec_cyclic_prefix() == cyclic_prefix,
            f.spec_duplex_mode() == DuplexMode::Fdd,
    {
        let extended_cp = match cyclic_prefix {
            CyclicPrefix::Extended => true,
            CyclicPrefix::Normal => false,
        };
        let slot_config = SlotConfig::from_scs(scs, extended_cp);
        FrameStructure { slot_config, cyclic_prefix, duplex_mode: DuplexMode::Fdd }
    }

    /// Sets the duplex mode.
    pub fn set_duplex_mode(&mut self, mode: DuplexMode)
        ensures
            final(self).spec_duplex_mode() == mode,
            final(self).spec_slot_config() == old(self).spec_slot_config(),
            final(self).spec_cyclic_prefix() == old(self).spec_cyclic_prefix(),
    {
        self.duplex_mode = mode;
    }

    /// Slots per 10 ms frame.
    pub fn slots_per_frame(&self) -> (r: u8)
        ensures
            r == self.spec_slot_config().slots_per_frame,
    {
        self.slot_config.slots_per_frame
    }

    /// OFDM symbols per slot.
    pub fn symbols_per_slot(&self) -> (r: u8)
        ensures
            r == self.spec_slot_config().symbols_per_slot,
    {
        self.slot_config.symbols_per_slot
    }

    /// Slot duration: 1 ms over the slots per subframe (62.5 us at 240 kHz).
    pub fn slot_duration(&self) -> (d: std::time::Duration)
        ensures
            d == duration_of_nanos(slot_duration_ns_spec(self.spec_slot_config().scs) as u64),
    {
        let ns: u64 = match self.slot_config.scs {
            SubcarrierSpacing::Scs15 => 1_000_000,
            SubcarrierSpacing::Scs30 => 500_000,
            SubcarrierSpacing::Scs60 => 250_000,
            SubcarrierSpacing::Scs120 => 125_000,
            SubcarrierSpacing::Scs240 => 62_500,
        };
        assert(1_000_000nat / 1 == 1_000_000 && 1_000_000nat / 2 == 500_000 && 1_000_000nat / 4 == 250_000
            && 1_000_000nat / 8 == 125_000 && 1_000_000nat / 16 == 62_500);
        duration_from_nanos(ns)
    }

    /// Symbol duration: the whole-microsecond slot duration over the
    /// symbols per slot, in whole microseconds.
    pub fn symbol_duration(&self) -> (d: std::time::Duration)
        requires
            self.spec_slot_config().symbols_per_slot > 0,
        ensures
            d == duration_of_nanos(
                ((self.spec_slot_config().slot_duration_us as u64 / self.spec_slot_config().symbols_per_slot
                    as u64) * 1000) as u64,
            ),
    {
        let us = self.slot_config.slot_duration_us as u64 / self.slot_config.symbols_per_slot as u64;
        assert(us <= u32::MAX);
        duration_from_nanos(us * 1000)
    }

    /// The slot carries SSBs: slots 0..=3 of even frames.
    pub fn is_sync_slot(&self, frame: u32, slot: u8) -> (r: bool)
        ensures
            r == (ssb_frame(frame) && slot <= 3),
    {
        if frame % 2 != 0 {
            return false;
        }
        slot <= 3
    }

    /// The symbol belongs to an SSB: symbols 2..=5 and 8..=11 of slots 0 and
    /// 1 of even frames.
    pub fn is_sync_symbol(&self, frame: u32, slot: u8, symbol: u8) -> (r: bool)
        ensures
            r == (ssb_frame(frame) && ssb_index_spec(slot, symbol) is Some),
    {
        if frame % 2 != 0 {
            return false;
        }
        match (slot, symbol) {
            (0, 2..=5) => true,
            (0, 8..=11) => true,
            (1, 2..=5) => true,
            (1, 8..=11) => true,
            _ => false,
        }
    }

    /// The symbol, counted from the start of its SSB, carries the PSS (the
    /// first SSB symbol).
    pub fn is_pss_symbol(&self, symbol: u8) -> (r: bool)
        ensures
            r == (symbol == 0),
    {
        symbol == 0
    }

    /// The symbol, counted from the start of its SSB, carries the SSS (the
    /// third SSB symbol).
    pub fn is_sss_symbol(&self, symbol: u8) -> (r: bool)
        ensures
            r == (symbol == 2),
    {
        symbol == 2
    }

    /// The symbol carries PBCH: the second and fourth symbol of each SSB
    /// (3, 5, 9, 11 of slots 0 and 1) in even frames.
    pub fn is_pbch_symbol(&self, frame: u32, slot: u8, symbol: u8) -> (r: bool)
        ensures
            r == (ssb_frame(frame) && slot <= 1 && (symbol == 3 || symbol == 5 || symbol == 9
                || symbol == 11)),
    {
        if frame % 2 != 0 {
            return false;
        }
        match (slot, symbol) {
            (0, 3) | (0, 5) | (0, 9) | (0, 11) => true,
            (1, 3) | (1, 5) | (1, 9) | (1, 11) => true,
            _ => false,
        }
    }

    /// The SSB index of a slot and symbol, if the symbol is in an SSB.
    pub fn get_ssb_index(&self, slot: u8, symbol: u8) -> (r: Option<u8>)
        ensures
            r == ssb_index_spec(slot, symbol),
    {
        match (slot, symbol) {
            (0, 2..=5) => Some(0),
            (0, 8..=11) => Some(1),
            (1, 2..=5) => Some(2),
            (1, 8..=11) => Some(3),
            _ => None,
        }
    }

    /// First symbol (within its slot) of SSB `ssb_index`.
    pub fn get_ssb_start_symbol(&self, ssb_index: u8) -> (r: Option<u8>)
        ensures
            r == (if ssb_index <= 3 {
                Some(if ssb_index % 2 == 0 { 2u8 } else { 8u8 })
            } else {
                None::<u8>
            }),
    {
        match ssb_index {
            0 => Some(2),
            1 => Some(8),
            2 => Some(2),
            3 => Some(8),
            _ => None,
        }
    }

    /// Direction of a symbol under the duplex mode.
    pub fn get_symbol_type(&self, slot: u8, symbol: u8) -> (t: SymbolType)
        ensures
            t == symbol_type_spec(self.spec_duplex_mode(), slot, symbol),
    {
        match self.duplex_mode {
            DuplexMode::Fdd => SymbolType::Downlink,
            DuplexMode::Tdd { pattern } => {
                let dl = pattern.dl_slots as u16;
                let sp = pattern.special_slots as u16;
                let ul = pattern.ul_slots as u16;
                let s = slot as u16;
                if s < dl {
                    SymbolType::Downlink
                } else if s < dl + sp {
                    if symbol < 10 {
                        SymbolType::Downlink
                    } else if symbol >= 12 {
                        SymbolType::Uplink
                    } else {
                        SymbolType::Guard
                    }
                } else if s < dl + sp + ul {
                    SymbolType::Uplink
                } else {
                    SymbolType::Flexible
                }
            },
        }
    }

    /// Samples of a symbol, cyclic prefix included.
    pub fn samples_per_symbol(&self, fft_size: usize, symbol_in_slot: u8) -> (r: usize)
        requires
            fft_size * 513 + 2047 <= usize::MAX,
        ensures
            r == fft_size + cp_samples(self.spec_cyclic_prefix(), fft_size as nat, symbol_in_slot),
    {
        let num: usize = match self.cyclic_prefix {
            CyclicPrefix::Normal => if symbol_in_slot == 0 {
                160
            } else {
                144
            },
            CyclicPrefix::Extended => 512,
        };
        assert(fft_size * num + 2047 <= fft_size * 513 + 2047) by (nonlinear_arith)
            requires
                num <= 512,
        ;
        let cp = (fft_size * num + 2047) / 2048;
        assert(cp <= fft_size) by (nonlinear_arith)
            requires
                cp == (fft_size * num + 2047) / 2048,
                num <= 512,
        ;
        fft_size + cp
    }

    /// SSB period in milliseconds.
    pub fn ssb_periodicity_ms(&self) -> (r: u32)
        ensures
            r == 20,
    {
        20
    }

    /// An SSB symbol occasion: the symbol belongs to an SSB in an even frame.
    pub fn is_ssb_occasion(&self, frame: u32, slot: u8, symbol: u8) -> (r: bool)
        ensures
            r == (ssb_frame(frame) && ssb_index_spec(slot, symbol) is Some),
    {
        if frame % 2 != 0 {
            return false;
        }
        self.is_sync_symbol(frame, slot, symbol)
    }
}

/// SSB transmission pattern.
#[derive(Debug, Clone, Copy)]
pub struct SsbPattern {
    /// SSB case of the band
    pub case: SsbCase,
    /// Maximum number of SSB beams
    pub max_beams: u8,
    /// SSB symbols within the block
    pub symbols: [u8; 4],
}

/// SSB cases by frequency range and spacing.
#[derive(Debug, Clone, Copy, PartialEq, Eq, Structural)]
pub enum SsbCase {
    /// Case A: 15 kHz
    CaseA,
    /// Case B: 30 kHz
    CaseB,
    /// Case C: 30 kHz (paired spectrum)
    CaseC,
    /// Case D: 120 kHz
    CaseD,
    /// Case E: 240 kHz
    CaseE,
}

/// Frequency range of a carrier, as the SSB pattern rules split it.
#[derive(Debug, Clone, Copy, PartialEq, Eq, Structural)]
pub enum SsbFrequencyRange {
    /// At most 3 GHz
    UpTo3Ghz,
    /// Above 3 GHz and at most 6 GHz
    UpTo6Ghz,
    /// Above 6 GHz
    Above6Ghz,
}

/// The SSB case and beam count for a frequency range and spacing.
pub open spec fn ssb_case_spec(range: SsbFrequencyRange, scs: SubcarrierSpacing) -> (SsbCase, u8) {
    match range {
        SsbFrequencyRange::UpTo3Ghz => (SsbCase::CaseA, 4),
        SsbFrequencyRange::UpTo6Ghz => match scs {
            SubcarrierSpacing::Scs15 => (SsbCase::CaseA, 4),
            SubcarrierSpacing::Scs30 => (SsbCase::CaseB, 8),
            _ => (SsbCase::CaseC, 8),
        },
        SsbFrequencyRange::Above6Ghz => match scs {
            SubcarrierSpacing::Scs240 => (SsbCase::CaseE, 64),
            _ => (SsbCase::CaseD, 64),
        },
    }
}

impl SsbPattern {
    /// The SSB pattern for a carrier in `range` at spacing `scs`; the SSB
    /// occupies four consecutive symbols.
    pub fn new(range: SsbFrequencyRange, scs: SubcarrierSpacing) -> (p: Self)
        ensures
            (p.case, p.max_beams) == ssb_case_spec(range, scs),
            p.symbols@ == seq![0u8, 1u8, 2u8, 3u8],
    {
        let (case, max_beams): (SsbCase, u8) = match range {
            SsbFrequencyRange::UpTo3Ghz => (SsbCase::CaseA, 4),
            SsbFrequencyRange::UpTo6Ghz => match scs {
                SubcarrierSpacing::Scs15 => (SsbCase::CaseA, 4),
                SubcarrierSpacing::Scs30 => (SsbCase::CaseB, 8),
                _ => (SsbCase::CaseC, 8),
            },
            SsbFrequencyRange::Above6Ghz => match scs {
                SubcarrierSpacing::Scs240 => (SsbCase::CaseE, 64),
                _ => (SsbCase::CaseD, 64),
            },
        };
        let symbols: [u8; 4] = [0, 1, 2, 3];
        assert(symbols@ =~= seq![0u8, 1u8, 2u8, 3u8]);
        SsbPattern { case, max_beams, symbols }
    }
}

} // verus!
