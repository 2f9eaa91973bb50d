//! MAC scheduling of the system information: SSB occasions and SIB1
//! (Type0-PDCCH) occasions, with the CORESET#0 table.
use vstd::prelude::*;
use crate::common::types::{
    Bandwidth, CellId, CorsetConfig, ModulationScheme, SubcarrierSpacing, scs_khz,
};
use crate::layers::LayerError;
use crate::common::text::{decimal, push_decimal, push_str};
use crate::layers::phy::frame_structure::{ssb_frame, ssb_index_spec};

verus! {

/// CORESET#0 parameters.
#[derive(Debug, Clone, Copy, PartialEq, Eq, Structural)]
pub struct Coreset0Config {
    /// Number of resource blocks
    pub num_rbs: u32,
    /// Number of symbols
    pub num_symbols: u32,
    /// RB offset from point A
    pub rb_offset: u32,
}

/// The CORESET#0 table for {15, 15} kHz: RBs, symbols and offset of rows
/// 0..=14.
pub open spec fn coreset0_table(index: u8) -> Option<Coreset0Config> {
    if index <= 2 {
        Some(Coreset0Config { num_rbs: 24, num_symbols: 2, rb_offset: (2 * index) as u32 })
    } else if index <= 5 {
        Some(Coreset0Config { num_rbs: 24, num_symbols: 3, rb_offset: (2 * (index - 3)) as u32 })
    } else if index <= 11 {
        Some(
            Coreset0Config {
                num_rbs: 48,
                num_symbols: (1 + (index - 6) / 2) as u32,
                rb_offset: if index % 2 == 0 {
                    12u32
                } else {
                    16u32
                },
            },
        )
    } else if index <= 14 {
        Some(Coreset0Config { num_rbs: 96, num_symbols: (index - 11) as u32, rb_offset: 38 })
    } else {
        None
    }
}

/// The message refusing an unknown CORESET#0 row.
pub open spec fn coreset0_index_text(index: u8) -> Seq<char> {
    "Invalid CORESET#0 index: "@ + decimal(index as nat)
}

/// The message refusing an unknown CORESET#0 row.
fn coreset0_index_message(index: u8) -> (m: String)
    ensures
        m@ == coreset0_index_text(index),
{
    let mut m = String::new();
    push_str(&mut m, "Invalid CORESET#0 index: ");
    push_decimal(&mut m, index as u64);
    assert(m@ =~= coreset0_index_text(index));
    m
}

impl Coreset0Config {
    /// The CORESET#0 configuration of a table row; rows above 14 are
    /// rejected.
    pub fn from_index(index: u8) -> (r: Result<Self, LayerError>)
        ensures
            coreset0_table(index) is Some ==> r == Ok::<Coreset0Config, LayerError>(
                coreset0_table(index)->0,
            ),
            coreset0_table(index) is None ==> r is Err && r->Err_0 is InvalidConfiguration
                && r->Err_0->InvalidConfiguration_0@ == coreset0_index_text(index),
    {
        let config = match index {
            0 => Coreset0Config { num_rbs: 24, num_symbols: 2, rb_offset: 0 },
            1 => Coreset0Config { num_rbs: 24, num_symbols: 2, rb_offset: 2 },
            2 => Coreset0Config { num_rbs: 24, num_symbols: 2, rb_offset: 4 },
            3 => Coreset0Config { num_rbs: 24, num_symbols: 3, rb_offset: 0 },
            4 => Coreset0Config { num_rbs: 24, num_symbols: 3, rb_offset: 2 },
            5 => Coreset0Config { num_rbs: 24, num_symbols: 3, rb_offset: 4 },
            6 => Coreset0Config { num_rbs: 48, num_symbols: 1, rb_offset: 12 },
            7 => Coreset0Config { num_rbs: 48, num_symbols: 1, rb_offset: 16 },
            8 => Coreset0Config { num_rbs: 48, num_symbols: 2, rb_offset: 12 },
            9 => Coreset0Config { num_rbs: 48, num_symbols: 2, rb_offset: 16 },
            10 => Coreset0Config { num_rbs: 48, num_symbols: 3, rb_offset: 12 },
            11 => Coreset0Config { num_rbs: 48, num_symbols: 3, rb_offset: 16 },
            12 => Coreset0Config { num_rbs: 96, num_symbols: 1, rb_offset: 38 },
            13 => Coreset0Config { num_rbs: 96, num_symbols: 2, rb_offset: 38 },
            14 => Coreset0Config { num_rbs: 96, num_symbols: 3, rb_offset: 38 },
            _ => {
                return Err(LayerError::InvalidConfiguration(coreset0_index_message(index)));
            },
        };
        Ok(config)
    }
}

/// Search space #0 parameters.
#[derive(Debug, Clone, Copy, PartialEq, Eq, Structural)]
pub struct SearchSpace0Config {
    /// Monitoring slot periodicity
    pub slot_periodicity: u32,
    /// Slot offset
    pub slot_offset: u32,
    /// Number of PDCCH candidates
    pub num_candidates: u32,
}

/// What a slot carries.
#[derive(Debug, Clone)]
pub struct SlotSchedule {
    /// Frame number
    pub frame: u32,
    /// Slot number
    pub slot: u8,
    /// SSB transmission, when scheduled
    pub ssb_info: Option<SsbScheduleInfo>,
    /// SIB1 transmission, when scheduled
    pub sib1_info: Option<Sib1ScheduleInfo>,
}

/// An SSB transmission.
#[derive(Debug, Clone, Copy, PartialEq, Eq, Structural)]
pub struct SsbScheduleInfo {
    /// SSB index
    pub ssb_index: u8,
    /// First symbol
    pub start_symbol: u8,
}

/// A SIB1 transmission: its PDCCH and PDSCH parameters.
#[derive(Debug, Clone)]
pub struct Sib1ScheduleInfo {
    /// CORESET#0 configuration
    pub coreset0: Coreset0Config,
    /// PDSCH time allocation
    pub pdsch_time_alloc: PdschTimeAlloc,
    /// SIB1 payload size in bytes
    pub payload_size: usize,
    /// The control resource set
    pub coreset: CorsetConfig,
    /// Frequency domain assignment of the DCI
    pub frequency_domain_assignment: u16,
    /// Time domain assignment of the DCI
    pub time_domain_assignment: u8,
    /// MCS index
    pub mcs_index: u8,
    /// PDCCH aggregation level
    pub aggregation_level: u8,
    /// CCE index
    pub cce_index: u16,
    /// Transport block size in bytes
    pub tbs_bytes: usize,
    /// Modulation scheme
    pub modulation: ModulationScheme,
    /// Allocated PRBs
    pub prb_allocation: Vec<u16>,
}

/// PDSCH time-domain allocation.
#[derive(Debug, Clone, Copy, PartialEq, Eq, Structural)]
pub struct PdschTimeAlloc {
    /// First symbol
    pub start_symbol: u8,
    /// Number of symbols
    pub num_symbols: u8,
}

/// Slots per 10 ms frame at a spacing.
pub open spec fn frame_slots(scs: SubcarrierSpacing) -> u32 {
    match scs {
        SubcarrierSpacing::Scs15 => 10,
        SubcarrierSpacing::Scs30 => 20,
        SubcarrierSpacing::Scs60 => 40,
        SubcarrierSpacing::Scs120 => 80,
        SubcarrierSpacing::Scs240 => 160,
    }
}

/// SSB slots: slots 0 and 1 of the first frame of each 20 ms period.
pub open spec fn ssb_slot_spec(frame: u32, slot: u8) -> bool {
    frame % 2 == 0 && (slot == 0 || slot == 1)
}

/// SIB1 (Type0-PDCCH) slots: every 20th slot of the 160 ms SI window.
pub open spec fn sib1_slot_spec(frame: u32, slot: u8, scs: SubcarrierSpacing) -> bool {
    let spf = frame_slots(scs) as int;
    ((frame * spf + slot) % (16 * spf)) % 20 == 0
}

/// The consecutive RB numbers `start .. start + len`.
pub open spec fn rb_range(start: u32, len: u32) -> Seq<u16> {
    Seq::new(len as nat, |i: int| (start + i) as u16)
}

/// The schedule of slot `slot` of frame `frame` for a spacing and
/// CORESET#0: the SSB in slots 0 and 1 of even frames (index 0 or 2, from
/// symbol 2), and SIB1 in every 20th slot of the 16-frame SI window with
/// its fixed allocation.
pub open spec fn slot_schedule_spec(s: SlotSchedule, frame: u32, slot: u8, scs: SubcarrierSpacing, c: Coreset0Config) -> bool {
    &&& s.frame == frame
    &&& s.slot == slot
    &&& s.ssb_info == (if ssb_slot_spec(frame, slot) {
        Some(SsbScheduleInfo { ssb_index: if slot == 0 { 0u8 } else { 2u8 }, start_symbol: 2 })
    } else {
        None::<SsbScheduleInfo>
    })
    &&& (s.sib1_info is Some <==> sib1_slot_spec(frame, slot, scs))
    &&& s.sib1_info is Some ==> ({
        let i = s.sib1_info->0;
        &&& i.coreset0 == c
        &&& i.pdsch_time_alloc == (PdschTimeAlloc { start_symbol: c.num_symbols as u8, num_symbols: 4 })
        &&& i.payload_size == 100
        &&& i.coreset.start_symbol == 0
        &&& i.coreset.duration == c.num_symbols as u8
        &&& i.coreset.frequency_domain_resources@ == rb_range(c.rb_offset, c.num_rbs)
        &&& i.frequency_domain_assignment == 78 + c.rb_offset
        &&& i.time_domain_assignment == 0
        &&& i.mcs_index == 2
        &&& i.aggregation_level == 4
        &&& i.cce_index == 0
        &&& i.tbs_bytes == 100
        &&& i.modulation == ModulationScheme::Qpsk
        &&& i.prb_allocation@ == rb_range(c.rb_offset, 12)
    })
}


/// A scheduled SSB agrees with the Case A burst of the frame structure: it
/// is scheduled exactly in the even frames' slots that carry SSBs, and its
/// index is the one the burst places at its slot and first symbol (SSB 0 at
/// symbol 2 of slot 0, SSB 2 at symbol 2 of slot 1); the slot's first SSB
/// is the one scheduled.
pub proof fn lemma_scheduled_ssb_matches_case_a(
    s: SlotSchedule,
    frame: u32,
    slot: u8,
    scs: SubcarrierSpacing,
    c: Coreset0Config,
)
    requires
        slot_schedule_spec(s, frame, slot, scs, c),
    ensures
        s.ssb_info is Some ==> ssb_frame(frame) && ssb_index_spec(slot, s.ssb_info->0.start_symbol) == Some(
            s.ssb_info->0.ssb_index,
        ),
        s.ssb_info is Some <==> (ssb_frame(frame) && ssb_index_spec(slot, 2) is Some),
        s.ssb_info is Some ==> s.ssb_info->0.start_symbol == 2,
{
}

/// The scheduler for the system information of a cell.
pub struct MacScheduler {
    cell_id: CellId,
    scs: SubcarrierSpacing,
    bandwidth: Bandwidth,
    ssb_period_ms: u32,
    sib1_period_ms: u32,
    coreset0_config: Coreset0Config,
}

impl MacScheduler {
    /// Subcarrier spacing.
    pub closed spec fn spec_scs(&self) -> SubcarrierSpacing {
        self.scs
    }

    /// CORESET#0 configuration.
    pub closed spec fn spec_coreset0(&self) -> Coreset0Config {
        self.coreset0_config
    }

    /// The scheduler is the one built by `new`: 20 ms SSB and SIB1 periods
    /// and a CORESET#0 from the table.
    pub closed spec fn well_formed(&self) -> bool {
        &&& self.ssb_period_ms == 20
        &&& self.sib1_period_ms == 20
        &&& exists|index: u8| coreset0_table(index) == Some(self.coreset0_config)
    }

    /// A scheduler with 20 ms SSB and SIB1 periods and the CORESET#0 of a
    /// table row; rows above 14 are rejected.
    pub fn new(cell_id: CellId, scs: SubcarrierSpacing, bandwidth: Bandwidth, coreset0_index: u8) -> (r:
        Result<Self, LayerError>)
        ensures
            coreset0_table(coreset0_index) is Some ==> r is Ok && r->Ok_0.well_formed()
                && r->Ok_0.spec_scs() == scs && r->Ok_0.spec_coreset0() == coreset0_table(
                coreset0_index,
            )->0,
            coreset0_table(coreset0_index) is None ==> r is Err && r->Err_0 is InvalidConfiguration
                && r->Err_0->InvalidConfiguration_0@ == coreset0_index_text(coreset0_index),
    {
        let coreset0_config = match Coreset0Config::from_index(coreset0_index) {
            Ok(c) => c,
            Err(e) => {
                return Err(e);
            },
        };
        assert(coreset0_table(coreset0_index) == Some(coreset0_config));
        Ok(
            MacScheduler {
                cell_id,
                scs,
                bandwidth,
                ssb_period_ms: 20,
                sib1_period_ms: 20,
                coreset0_config,
            },
        )
    }

    /// The Type0-PDCCH monitoring slots of the 160-slot SI window: every
    /// 20th slot.
    pub fn get_sib1_monitoring_slots(&self) -> (slots: Vec<u32>)
        ensures
            slots@ == seq![0u32, 20, 40, 60, 80, 100, 120, 140],
    {
        let mut slots: Vec<u32> = Vec::new();
        let monitoring_period_slots: u32 = 20;
        let si_window_slots: u32 = 160;
        let mut i: u32 = 0;
        while i < 8
            invariant
                i <= 8,
                monitoring_period_slots == 20,
                si_window_slots == 160,
                slots@ == Seq::new(i as nat, |k: int| (20 * k) as u32),
            decreases 8 - i,
        {
            let slot = i * monitoring_period_slots;
            if slot < si_window_slots {
                slots.push(slot);
            }
            i = i + 1;
            assert(slots@ =~= Seq::new(i as nat, |k: int| (20 * k) as u32));
        }
        assert(slots@ =~= seq![0u32, 20, 40, 60, 80, 100, 120, 140]);
        slots
    }

    /// The schedule of a slot: an SSB in slots 0 and 1 of even frames, and
    /// SIB1 (CORESET#0 at its offset, 12 PRBs, 100 bytes, QPSK, MCS 2,
    /// aggregation level 4) in every 20th slot of the SI window.
    pub fn get_slot_schedule(&self, frame: u32, slot: u8) -> (s: SlotSchedule)
        requires
            self.well_formed(),
            frame * frame_slots(self.spec_scs()) + slot <= u32::MAX,
        ensures
            slot_schedule_spec(s, frame, slot, self.spec_scs(), self.spec_coreset0()),
            s.ssb_info is Some ==> ssb_frame(frame) && ssb_index_spec(slot, s.ssb_info->0.start_symbol) == Some(
                s.ssb_info->0.ssb_index,
            ),
    {
        let slots_per_frame: u32 = match self.scs {
            SubcarrierSpacing::Scs15 => 10,
            SubcarrierSpacing::Scs30 => 20,
            SubcarrierSpacing::Scs60 => 40,
            SubcarrierSpacing::Scs120 => 80,
            SubcarrierSpacing::Scs240 => 160,
        };
        proof {
            let index = choose|index: u8| coreset0_table(index) == Some(self.coreset0_config);
            assert(coreset0_table(index) == Some(self.coreset0_config));
            assert(self.coreset0_config.rb_offset <= 38 && self.coreset0_config.num_rbs <= 96
                && self.coreset0_config.num_symbols <= 3);
        }
        let mut schedule = SlotSchedule { frame, slot, ssb_info: None, sib1_info: None };
        if self.is_ssb_slot(frame, slot) {
            let (ssb_index, start_symbol): (u8, u8) = match slot {
                0 => (0, 2),
                1 => (2, 2),
                _ => (0, 0),
            };
            schedule.ssb_info = Some(SsbScheduleInfo { ssb_index, start_symbol });
        }
        if self.is_sib1_slot(frame, slot, slots_per_frame) {
            let prb_start = self.coreset0_config.rb_offset;
            let prb_length: u32 = 12;
            assert(prb_length * (prb_length + 1) == 156) by (nonlinear_arith)
                requires
                    prb_length == 12,
            ;
            let tbs_bytes: usize = 100;
            let num_rbs = self.coreset0_config.num_rbs;
            let frequency_domain_resources = rb_list(prb_start, num_rbs);
            let prb_allocation = rb_list(prb_start, prb_length);
            schedule.sib1_info = Some(
                Sib1ScheduleInfo {
                    coreset0: self.coreset0_config,
                    pdsch_time_alloc: PdschTimeAlloc {
                        start_symbol: self.coreset0_config.num_symbols as u8,
                        num_symbols: 4,
                    },
                    payload_size: tbs_bytes,
                    coreset: CorsetConfig {
                        start_symbol: 0,
                        duration: self.coreset0_config.num_symbols as u8,
                        frequency_domain_resources,
                    },
                    frequency_domain_assignment: ((prb_length * (prb_length + 1)) / 2 + prb_start) as u16,
                    time_domain_assignment: 0,
                    mcs_index: 2,
                    aggregation_level: 4,
                    cce_index: 0,
                    tbs_bytes,
                    modulation: ModulationScheme::Qpsk,
                    prb_allocation,
                },
            );
        }
        schedule
    }

    /// SSB slots: slots 0 and 1 of the first frame of each SSB period.
    fn is_ssb_slot(&self, frame: u32, slot: u8) -> (r: bool)
        requires
            self.well_formed(),
        ensures
            r == ssb_slot_spec(frame, slot),
    {
        let ssb_period_frames = self.ssb_period_ms / 10;
        let frame_in_period = frame % ssb_period_frames;
        frame_in_period == 0 && (slot == 0 || slot == 1)
    }

    /// SIB1 slots: every 20th slot of the 160 ms SI window.
    fn is_sib1_slot(&self, frame: u32, slot: u8, slots_per_frame: u32) -> (r: bool)
        requires
            slots_per_frame == frame_slots(self.spec_scs()),
            frame * slots_per_frame + slot <= u32::MAX,
        ensures
            r == sib1_slot_spec(frame, slot, self.spec_scs()),
    {
        assert(slots_per_frame >= 10 && slots_per_frame <= 160);
        assert(frame * slots_per_frame <= u32::MAX);
        let total_slots = frame * slots_per_frame + slot as u32;
        let si_window_slots = 160 / 10 * slots_per_frame;
        let slot_in_si_window = total_slots % si_window_slots;
        let monitoring_period_slots: u32 = 20;
        slot_in_si_window % monitoring_period_slots == 0
    }
}

/// The RB numbers `start .. start + len` as 16-bit values.
fn rb_list(start: u32, len: u32) -> (v: Vec<u16>)
    requires
        start + len <= 0xFFFF,
    ensures
        v@ == rb_range(start, len),
{
    let mut v: Vec<u16> = Vec::new();
    let mut rb = start;
    while rb < start + len
        invariant
            start <= rb <= start + len,
            start + len <= 0xFFFF,
            v@ == rb_range(start, (rb - start) as u32),
        decreases start + len - rb,
    {
        v.push(rb as u16);
        rb = rb + 1;
        assert(v@ =~= rb_range(start, (rb - start) as u32));
    }
    v
}

/// SIB1 is scheduled in the same slots of every SI window of 16 frames.
pub proof fn lemma_sib1_repeats_every_si_window(frame: u32, slot: u8, scs: SubcarrierSpacing)
    requires
        frame as int + 16 <= u32::MAX,
    ensures
        sib1_slot_spec(frame, slot, scs) == sib1_slot_spec((frame + 16) as u32, slot, scs),
{
    let spf = frame_slots(scs) as int;
    let f = frame as int;
    let s = slot as int;
    assert((f + 16) * spf + s == (f * spf + s) + (16 * spf) * 1) by (nonlinear_arith);
    vstd::arithmetic::div_mod::lemma_mod_multiples_vanish(1, f * spf + s, 16 * spf);
}

/// The SSB is scheduled in the same slots every two frames (20 ms).
pub proof fn lemma_ssb_repeats_every_two_frames(frame: u32, slot: u8)
    requires
        frame as int + 2 <= u32::MAX,
    ensures
        ssb_slot_spec(frame, slot) == ssb_slot_spec((frame + 2) as u32, slot),
{
}

/// At 15 kHz the slots of the first SI window that carry SIB1 are exactly
/// the Type0-PDCCH monitoring slots: every 20th slot.
pub proof fn lemma_sib1_slots_are_monitoring_slots(frame: u32, slot: u8)
    requires
        frame < 16,
        slot < 10,
    ensures
        sib1_slot_spec(frame, slot, SubcarrierSpacing::Scs15) <==> seq![0u32, 20, 40, 60, 80, 100, 120, 140].contains(
            (frame * 10 + slot) as u32,
        ),
{
    let n = frame * 10 + slot;
    let list = seq![0u32, 20, 40, 60, 80, 100, 120, 140];
    assert(0 <= n < 160) by (nonlinear_arith)
        requires
            frame < 16,
            slot < 10,
            n == frame * 10 + slot,
    ;
    assert(n % 160 == n);
    if n % 20 == 0 {
        let k = n / 20;
        assert(0 <= k < 8 && n == 20 * k);
        assert(list[k] == n);
    }
    if list.contains(n as u32) {
        let k = choose|k: int| 0 <= k < list.len() && list[k] == n as u32;
        assert(list[k] % 20 == 0);
    }
}

} // verus!
