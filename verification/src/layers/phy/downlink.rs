//! Downlink symbol sequencing: the PHY timing state (frame, slot, symbol,
//! sample counters), and for each symbol the decision of what it carries
//! (PSS, SSS, PBCH with its per-frame cache, the SIB1 PDCCH and PDSCH)
//! from the frame structure and the MAC schedule. The caller modulates,
//! transmits and then completes the symbol.
use vstd::prelude::*;
use crate::common::types::{CorsetConfig, ModulationScheme};
use crate::layers::mac::scheduler::{Sib1ScheduleInfo, SlotSchedule};
use crate::layers::phy::frame_structure::{FrameStructure, ssb_frame, ssb_index_spec};
use crate::layers::phy::pbch::{PbchProcessor, generated_mib, pbch_encode_bits_spec};
use crate::layers::phy::pdcch::DciFormat10SiRnti;
use crate::layers::phy::pdsch::PdschConfig;

verus! {

/// The PHY timing state and the PBCH bits cached for the current frame.
pub struct PhyState {
    frame_number: u32,
    slot_number: u8,
    symbol_number: u8,
    sample_count: u64,
    expected_sample_count: u64,
    symbol_start_sample: u64,
    pbch_cache: Vec<Option<Vec<u8>>>,
}

/// PBCH content of a symbol.
#[derive(Debug, Clone)]
pub struct PbchPlan {
    /// SSB index
    pub ssb_index: u8,
    /// Symbol within the SSB (1 or 3)
    pub relative_symbol: u8,
    /// The 864 scrambled PBCH bits
    pub bits: Vec<u8>,
}

/// The PDCCH that schedules SIB1.
#[derive(Debug, Clone)]
pub struct PdcchPlan {
    /// The CORESET
    pub coreset: CorsetConfig,
    /// The DCI
    pub dci: DciFormat10SiRnti,
    /// Aggregation level
    pub aggregation_level: u8,
    /// First CCE
    pub cce_index: u16,
}

/// What one downlink symbol carries.
#[derive(Debug, Clone)]
pub struct SymbolPlan {
    /// Frame number
    pub frame: u32,
    /// Slot number
    pub slot: u8,
    /// Symbol number
    pub symbol: u8,
    /// The PSS is mapped
    pub map_pss: bool,
    /// The SSS is mapped
    pub map_sss: bool,
    /// The SSS of an even frame (else of an odd frame)
    pub sss_even_frame: bool,
    /// PBCH content, if any
    pub pbch: Option<PbchPlan>,
    /// The SIB1 PDCCH, if any
    pub pdcch: Option<PdcchPlan>,
    /// The SIB1 PDSCH, if any
    pub pdsch: Option<PdschConfig>,
    /// Sample timestamp of the symbol
    pub timestamp: u64,
}

/// The symbol carries an SSB: the MAC schedules an SSB in the slot (or no
/// schedule is given) and the frame structure places an SSB symbol there.
pub open spec fn ssb_symbol_decision(has_schedule: bool, schedule_has_ssb: bool, frame: u32, slot: u8, symbol: u8) -> bool {
    (!has_schedule || schedule_has_ssb) && ssb_frame(frame) && ssb_index_spec(slot, symbol) is Some
}

/// First symbol of an SSB within its slot.
pub open spec fn ssb_start_spec(ssb_index: u8) -> u8 {
    if ssb_index % 2 == 0 {
        2
    } else {
        8
    }
}

/// PBCH symbols: the second and fourth symbol of each SSB in slots 0 and 1
/// of even frames.
pub open spec fn pbch_symbol_spec(frame: u32, slot: u8, symbol: u8) -> bool {
    ssb_frame(frame) && slot <= 1 && (symbol == 3 || symbol == 5 || symbol == 9 || symbol == 11)
}

/// The next position: symbol, then slot, then frame (modulo 1024).
pub open spec fn next_position(frame: u32, slot: u8, symbol: u8, symbols_per_slot: u8, slots_per_frame: u8) -> (u32, u8, u8) {
    if symbol + 1 < symbols_per_slot {
        (frame, slot, (symbol + 1) as u8)
    } else if slot + 1 < slots_per_frame {
        (frame, (slot + 1) as u8, 0)
    } else {
        (((frame + 1) % 1024) as u32, 0, 0)
    }
}

/// The PDSCH parameters of SIB1 under a schedule: single layer, RV 0,
/// base graph 1 above 292 bytes, the scheduled PRBs and symbols, type-1
/// DMRS, the cell's identity, SI-RNTI, and the TB with CRC as code block.
pub open spec fn sib1_pdsch_config_ok(c: PdschConfig, info: Sib1ScheduleInfo, pci: u16) -> bool {
    &&& c.tbs_bytes == info.tbs_bytes
    &&& c.modulation == info.modulation
    &&& c.num_layers == 1
    &&& c.rv == 0
    &&& c.ldpc_base_graph == (if info.tbs_bytes > 292 { 1u8 } else { 2u8 })
    &&& c.ndi
    &&& c.harq_id == 0
    &&& c.prb_allocation@ == info.prb_allocation@
    &&& c.start_symbol == info.pdsch_time_alloc.start_symbol
    &&& c.num_symbols == info.pdsch_time_alloc.num_symbols
    &&& c.dmrs_type == 0
    &&& c.dmrs_additional_pos == 0
    &&& c.dmrs_config_type == 0
    &&& c.n_id == pci
    &&& c.rnti == 0xFFFF
    &&& c.code_block_size == (info.tbs_bytes + 3) * 8
}

impl PhyState {
    /// Frame number.
    pub closed spec fn spec_frame(&self) -> u32 {
        self.frame_number
    }

    /// Slot number.
    pub closed spec fn spec_slot(&self) -> u8 {
        self.slot_number
    }

    /// Symbol number.
    pub closed spec fn spec_symbol(&self) -> u8 {
        self.symbol_number
    }

    /// Samples produced.
    pub closed spec fn spec_sample_count(&self) -> u64 {
        self.sample_count
    }

    /// Samples expected by the nominal timing.
    pub closed spec fn spec_expected_sample_count(&self) -> u64 {
        self.expected_sample_count
    }

    /// The cache holds, for each SSB index, nothing or the PBCH bits of the
    /// current frame of the cell.
    pub closed spec fn cache_valid(&self, pci: u16) -> bool {
        &&& self.pbch_cache@.len() == 4
        &&& forall|i: int|
            0 <= i < 4 && #[trigger] self.pbch_cache@[i] is Some ==> self.pbch_cache@[i]->0@
                == pbch_encode_bits_spec(pci, generated_mib(self.frame_number), self.frame_number)
    }

    /// The state at power-up: frame 0, slot 0, symbol 0, no samples, empty
    /// cache.
    pub fn new() -> (s: Self)
        ensures
            s.spec_frame() == 0,
            s.spec_slot() == 0,
            s.spec_symbol() == 0,
            s.spec_sample_count() == 0,
            s.spec_expected_sample_count() == 0,
            forall|pci: u16| s.cache_valid(pci),
    {
        let mut cache: Vec<Option<Vec<u8>>> = Vec::new();
        cache.push(None);
        cache.push(None);
        cache.push(None);
        cache.push(None);
        PhyState {
            frame_number: 0,
            slot_number: 0,
            symbol_number: 0,
            sample_count: 0,
            expected_sample_count: 0,
            symbol_start_sample: 0,
            pbch_cache: cache,
        }
    }

    /// Moves to the next symbol, slot or frame (frames count modulo 1024);
    /// a new frame empties the PBCH cache.
    fn advance_symbol(&mut self, symbols_per_slot: u8, slots_per_frame: u8)
        requires
            old(self).spec_symbol() < 255,
            old(self).spec_slot() < 255,
            old(self).spec_frame() < 1024,
        ensures
            (final(self).spec_frame(), final(self).spec_slot(), final(self).spec_symbol()) == next_position(
                old(self).spec_frame(),
                old(self).spec_slot(),
                old(self).spec_symbol(),
                symbols_per_slot,
                slots_per_frame,
            ),
            final(self).spec_sample_count() == old(self).spec_sample_count(),
            final(self).spec_expected_sample_count() == old(self).spec_expected_sample_count(),
            forall|pci: u16| old(self).cache_valid(pci) ==> final(self).cache_valid(pci),
    {
        self.symbol_number = self.symbol_number + 1;
        if self.symbol_number >= symbols_per_slot {
            self.symbol_number = 0;
            self.slot_number = self.slot_number + 1;
            if self.slot_number >= slots_per_frame {
                self.slot_number = 0;
                self.frame_number = (self.frame_number + 1) % 1024;
                let mut cache: Vec<Option<Vec<u8>>> = Vec::new();
                cache.push(None);
                cache.push(None);
                cache.push(None);
                cache.push(None);
                self.pbch_cache = cache;
            }
        }
    }

    /// Accounts the symbol's samples (realigning the expected count when it
    /// drifts by more than a symbol) and moves to the next symbol.
    pub fn complete_symbol(&mut self, samples_per_symbol: u64, symbols_per_slot: u8, slots_per_frame: u8)
        requires
            old(self).spec_sample_count() + samples_per_symbol <= u64::MAX,
            old(self).spec_expected_sample_count() + samples_per_symbol <= u64::MAX,
            old(self).spec_symbol() < 255,
            old(self).spec_slot() < 255,
            old(self).spec_frame() < 1024,
        ensures
            final(self).spec_sample_count() == old(self).spec_sample_count() + samples_per_symbol,
            ({
                let sc = old(self).spec_sample_count() + samples_per_symbol;
                let ex = old(self).spec_expected_sample_count() + samples_per_symbol;
                let drift = if sc >= ex { sc - ex } else { ex - sc };
                final(self).spec_expected_sample_count() == if drift > samples_per_symbol { sc } else { ex }
            }),
            (final(self).spec_frame(), final(self).spec_slot(), final(self).spec_symbol()) == next_position(
                old(self).spec_frame(),
                old(self).spec_slot(),
                old(self).spec_symbol(),
                symbols_per_slot,
                slots_per_frame,
            ),
            forall|pci: u16| old(self).cache_valid(pci) ==> final(self).cache_valid(pci),
    {
        self.sample_count = self.sample_count + samples_per_symbol;
        self.expected_sample_count = self.expected_sample_count + samples_per_symbol;
        let drift = if self.sample_count >= self.expected_sample_count {
            self.sample_count - self.expected_sample_count
        } else {
            self.expected_sample_count - self.sample_count
        };
        if drift > samples_per_symbol {
            self.expected_sample_count = self.sample_count;
        }
        self.advance_symbol(symbols_per_slot, slots_per_frame);
    }

    /// Decides what the current symbol carries.
    ///
    /// SSB symbols (when the schedule, if any, has an SSB in the slot) get
    /// the PSS on the first SSB symbol and the SSS on the third, with the
    /// even- or odd-frame SSS. PBCH symbols get the frame's PBCH bits, made
    /// at the first PBCH symbol of each SSB and reused at the second. A
    /// scheduled SIB1 puts its PDCCH on the first CORESET symbol and its
    /// PDSCH on the scheduled symbols. The timestamp is the sample count, or
    /// during pre-buffering the count before this symbol's samples.
    pub fn plan_symbol(
        &mut self,
        frame_structure: &FrameStructure,
        schedule: Option<&SlotSchedule>,
        pbch: &PbchProcessor,
        pci: u16,
        samples_per_symbol: u64,
        prebuffer: bool,
    ) -> (p: SymbolPlan)
        requires
            old(self).cache_valid(pci),
            pci <= 1007,
            pbch.spec_pci().0 == pci,
            !prebuffer ==> old(self).spec_sample_count() >= samples_per_symbol,
            schedule is Some && schedule->0.sib1_info is Some ==> (schedule->0.sib1_info->0.tbs_bytes + 3) * 8
                <= usize::MAX,
        ensures
            final(self).cache_valid(pci),
            final(self).spec_frame() == old(self).spec_frame(),
            final(self).spec_slot() == old(self).spec_slot(),
            final(self).spec_symbol() == old(self).spec_symbol(),
            final(self).spec_sample_count() == old(self).spec_sample_count(),
            final(self).spec_expected_sample_count() == old(self).spec_expected_sample_count(),
            p.frame == old(self).spec_frame(),
            p.slot == old(self).spec_slot(),
            p.symbol == old(self).spec_symbol(),
            p.timestamp == (if prebuffer {
                old(self).spec_sample_count()
            } else {
                (old(self).spec_sample_count() - samples_per_symbol) as u64
            }),
            ({
                let (f, sl, sy) = (p.frame, p.slot, p.symbol);
                let ssb = ssb_symbol_decision(
                    schedule is Some,
                    schedule is Some && schedule->0.ssb_info is Some,
                    f,
                    sl,
                    sy,
                );
                let rel = (sy - ssb_start_spec(ssb_index_spec(sl, sy)->0)) as int;
                &&& p.map_pss == (ssb && rel == 0)
                &&& p.map_sss == (ssb && rel == 2)
                &&& p.sss_even_frame == (f % 2 == 0)
            }),
            (p.pbch is Some) == pbch_symbol_spec(p.frame, p.slot, p.symbol),
            p.pbch is Some ==> ({
                let b = p.pbch->0;
                &&& b.ssb_index == ssb_index_spec(p.slot, p.symbol)->0
                &&& b.relative_symbol == p.symbol - ssb_start_spec(b.ssb_index)
                &&& b.bits@ == pbch_encode_bits_spec(pci, generated_mib(p.frame), p.frame)
            }),
            (p.pdcch is Some) == (schedule is Some && schedule->0.sib1_info is Some && p.symbol
                == schedule->0.sib1_info->0.coreset.start_symbol),
            p.pdcch is Some ==> ({
                let c = p.pdcch->0;
                let i = schedule->0.sib1_info->0;
                &&& c.coreset.start_symbol == i.coreset.start_symbol
                &&& c.coreset.duration == i.coreset.duration
                &&& c.coreset.frequency_domain_resources@ == i.coreset.frequency_domain_resources@
                &&& c.dci == (DciFormat10SiRnti {
                    frequency_resource: i.frequency_domain_assignment,
                    time_resource: i.time_domain_assignment,
                    vrb_to_prb_mapping: 0,
                    modulation_coding_scheme: i.mcs_index,
                    redundancy_version: 0,
                    system_information_indicator: 0,
                })
                &&& c.aggregation_level == i.aggregation_level
                &&& c.cce_index == i.cce_index
            }),
            (p.pdsch is Some) == (schedule is Some && schedule->0.sib1_info is Some && ({
                let i = schedule->0.sib1_info->0;
                i.pdsch_time_alloc.start_symbol <= p.symbol && p.symbol < i.pdsch_time_alloc.start_symbol
                    + i.pdsch_time_alloc.num_symbols
            })),
            p.pdsch is Some ==> sib1_pdsch_config_ok(p.pdsch->0, schedule->0.sib1_info->0, pci),
    {
        let frame = self.frame_number;
        let slot = self.slot_number;
        let symbol = self.symbol_number;
        let sync = frame_structure.is_sync_symbol(frame, slot, symbol);
        let should_send_ssb = match schedule {
            Some(s) => s.ssb_info.is_some() && sync,
            None => sync,
        };
        let mut map_pss = false;
        let mut map_sss = false;
        if should_send_ssb {
            let idx = match frame_structure.get_ssb_index(slot, symbol) {
                Some(i) => i,
                None => 0,
            };
            let start = match frame_structure.get_ssb_start_symbol(idx) {
                Some(s) => s,
                None => 0,
            };
            let rel = symbol - start;
            map_pss = frame_structure.is_pss_symbol(rel);
            map_sss = frame_structure.is_sss_symbol(rel);
        }
        let sss_even_frame = frame % 2 == 0;
        let mut pbch_plan: Option<PbchPlan> = None;
        if frame_structure.is_pbch_symbol(frame, slot, symbol) {
            let ssb_idx = match frame_structure.get_ssb_index(slot, symbol) {
                Some(i) => i,
                None => 0,
            };
            let ssb_start = match frame_structure.get_ssb_start_symbol(ssb_idx) {
                Some(s) => s,
                None => 0,
            };
            let relative_symbol = symbol - ssb_start;
            let bits = if relative_symbol == 1 {
                let mib = pbch.generate_mib(frame);
                let b = pbch.encode_pbch_bits(&mib, frame);
                self.store_pbch(ssb_idx, clone_bits(&b), Ghost(pci));
                b
            } else if relative_symbol == 3 {
                match self.cached_pbch(ssb_idx) {
                    Some(b) => b,
                    None => {
                        let mib = pbch.generate_mib(frame);
                        let b = pbch.encode_pbch_bits(&mib, frame);
                        self.store_pbch(ssb_idx, clone_bits(&b), Ghost(pci));
                        b
                    },
                }
            } else {
                let mib = pbch.generate_mib(frame);
                pbch.encode_pbch_bits(&mib, frame)
            };
            pbch_plan = Some(PbchPlan { ssb_index: ssb_idx, relative_symbol, bits });
        }
        let mut pdcch: Option<PdcchPlan> = None;
        let mut pdsch: Option<PdschConfig> = None;
        if let Some(s) = schedule {
            if let Some(info) = &s.sib1_info {
                if symbol == info.coreset.start_symbol {
                    let dci = DciFormat10SiRnti {
                        frequency_resource: info.frequency_domain_assignment,
                        time_resource: info.time_domain_assignment,
                        vrb_to_prb_mapping: 0,
                        modulation_coding_scheme: info.mcs_index,
                        redundancy_version: 0,
                        system_information_indicator: 0,
                    };
                    pdcch = Some(
                        PdcchPlan {
                            coreset: CorsetConfig {
                                start_symbol: info.coreset.start_symbol,
                                duration: info.coreset.duration,
                                frequency_domain_resources: clone_u16s(&info.coreset.frequency_domain_resources),
                            },
                            dci,
                            aggregation_level: info.aggregation_level,
                            cce_index: info.cce_index,
                        },
                    );
                }
                let sib1_start = info.pdsch_time_alloc.start_symbol;
                let sib1_length = info.pdsch_time_alloc.num_symbols;
                if symbol >= sib1_start && (symbol as u16) < (sib1_start as u16) + (sib1_length as u16) {
                    pdsch = Some(
                        PdschConfig {
                            tbs_bytes: info.tbs_bytes,
                            modulation: info.modulation,
                            num_layers: 1,
                            rv: 0,
                            ldpc_base_graph: if info.tbs_bytes > 292 {
                                1
                            } else {
                                2
                            },
                            ndi: true,
                            harq_id: 0,
                            prb_allocation: clone_u16s(&info.prb_allocation),
                            start_symbol: sib1_start,
                            num_symbols: sib1_length,
                            dmrs_type: 0,
                            dmrs_additional_pos: 0,
                            dmrs_config_type: 0,
                            n_id: pci,
                            rnti: 0xFFFF,
                            code_block_size: (info.tbs_bytes + 3) * 8,
                        },
                    );
                }
            }
        }
        let timestamp = if prebuffer {
            self.sample_count
        } else {
            self.sample_count - samples_per_symbol
        };
        SymbolPlan {
            frame,
            slot,
            symbol,
            map_pss,
            map_sss,
            sss_even_frame,
            pbch: pbch_plan,
            pdcch,
            pdsch,
            timestamp,
        }
    }

    /// Current frame number.
    pub fn frame_number(&self) -> (f: u32)
        ensures
            f == self.spec_frame(),
    {
        self.frame_number
    }

    /// Current slot number.
    pub fn slot_number(&self) -> (s: u8)
        ensures
            s == self.spec_slot(),
    {
        self.slot_number
    }

    /// Current symbol number.
    pub fn symbol_number(&self) -> (s: u8)
        ensures
            s == self.spec_symbol(),
    {
        self.symbol_number
    }

    /// Samples produced so far.
    pub fn sample_count(&self) -> (n: u64)
        ensures
            n == self.spec_sample_count(),
    {
        self.sample_count
    }

    /// Samples expected by the nominal timing.
    pub fn expected_sample_count(&self) -> (n: u64)
        ensures
            n == self.spec_expected_sample_count(),
    {
        self.expected_sample_count
    }

    /// The cached PBCH bits of an SSB index, if any.
    fn cached_pbch(&self, ssb_idx: u8) -> (r: Option<Vec<u8>>)
        requires
            self.pbch_cache@.len() == 4,
        ensures
            r is Some <==> (ssb_idx < 4 && self.pbch_cache@[ssb_idx as int] is Some),
            r is Some ==> r->0@ == self.pbch_cache@[ssb_idx as int]->0@,
    {
        if (ssb_idx as usize) < self.pbch_cache.len() {
            match &self.pbch_cache[ssb_idx as usize] {
                Some(b) => Some(clone_bits(b)),
                None => None,
            }
        } else {
            None
        }
    }

    /// Caches the PBCH bits of an SSB index for the current frame.
    fn store_pbch(&mut self, ssb_idx: u8, bits: Vec<u8>, Ghost(pci): Ghost<u16>)
        requires
            old(self).cache_valid(pci),
            bits@ == pbch_encode_bits_spec(pci, generated_mib(old(self).spec_frame()), old(self).spec_frame()),
        ensures
            final(self).cache_valid(pci),
            final(self).spec_frame() == old(self).spec_frame(),
            final(self).spec_slot() == old(self).spec_slot(),
            final(self).spec_symbol() == old(self).spec_symbol(),
            final(self).spec_sample_count() == old(self).spec_sample_count(),
            final(self).spec_expected_sample_count() == old(self).spec_expected_sample_count(),
            final(self).pbch_cache@.len() == old(self).pbch_cache@.len(),
            ssb_idx < 4 ==> final(self).pbch_cache@[ssb_idx as int] is Some,
            ssb_idx < 4 ==> final(self).pbch_cache@[ssb_idx as int]->0@ == bits@,
            forall|i: int|
                0 <= i < 4 && i != ssb_idx ==> #[trigger] final(self).pbch_cache@[i] == old(self).pbch_cache@[i],
    {
        if (ssb_idx as usize) < self.pbch_cache.len() {
            self.pbch_cache.set(ssb_idx as usize, Some(bits));
        }
    }
}

/// A copy of a bit vector.
fn clone_bits(v: &Vec<u8>) -> (r: Vec<u8>)
    ensures
        r@ == v@,
{
    let mut out: Vec<u8> = Vec::new();
    let mut i: usize = 0;
    while i < v.len()
        invariant
            i <= v@.len(),
            out@ == v@.take(i as int),
        decreases v@.len() - i,
    {
        out.push(v[i]);
        i = i + 1;
        assert(out@ =~= v@.take(i as int));
    }
    assert(v@.take(v@.len() as int) =~= v@);
    out
}

/// A copy of a list of RB numbers.
fn clone_u16s(v: &Vec<u16>) -> (r: Vec<u16>)
    ensures
        r@ == v@,
{
    let mut out: Vec<u16> = Vec::new();
    let mut i: usize = 0;
    while i < v.len()
        invariant
            i <= v@.len(),
            out@ == v@.take(i as int),
        decreases v@.len() - i,
    {
        out.push(v[i]);
        i = i + 1;
        assert(out@ =~= v@.take(i as int));
    }
    assert(v@.take(v@.len() as int) =~= v@);
    out
}

} // verus!
