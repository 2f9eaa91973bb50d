//! Medium access control: system information scheduling, SIB1, random
//! access bookkeeping and RAR construction.
use vstd::prelude::*;
use crate::common::types::{Bandwidth, CellId, Rnti, SubcarrierSpacing};
use crate::common::utils::{bytes_contents, bytes_from_vec};
use crate::layers::LayerError;
use crate::layers::mac::scheduler::{MacScheduler, SlotSchedule, coreset0_table};
use crate::layers::mac::sib1::{Sib1Config, Sib1Generator, sib1_message};

pub mod scheduler;
pub mod sib1;

verus! {

/// MAC PDU types.
#[derive(Debug, Clone, Copy, PartialEq, Eq, Structural)]
pub enum MacPduType {
    /// Random access response
    Rar,
    /// User data
    Data,
    /// Broadcast (SI-RNTI)
    Broadcast,
}

/// MAC configuration.
#[derive(Debug, Clone)]
pub struct MacConfig {
    /// Cell identity
    pub cell_id: CellId,
    /// Subcarrier spacing
    pub scs: SubcarrierSpacing,
    /// Bandwidth
    pub bandwidth: Bandwidth,
    /// Maximum number of UEs
    pub max_ues: u16,
    /// SIB1 configuration
    pub sib1_config: Sib1Config,
}

/// MAC subheader.
#[derive(Debug, Clone, Copy, PartialEq, Eq, Structural)]
pub struct MacSubheader {
    /// Logical channel identity
    pub lcid: u8,
    /// Length field
    pub length: Option<u16>,
}

/// A random access procedure in progress.
#[derive(Debug, Clone, Copy, PartialEq, Eq, Structural)]
pub struct RandomAccessProcedure {
    /// Temporary C-RNTI
    pub tc_rnti: Rnti,
    /// Timing advance command
    pub timing_advance: u16,
    /// Frame of the PRACH detection
    pub prach_frame: u32,
    /// Slot of the PRACH detection
    pub prach_slot: u8,
    /// Detected preamble
    pub preamble_index: u8,
}

/// A detected preamble with its timing advance command.
#[derive(Debug, Clone, Copy, PartialEq, Eq, Structural)]
pub struct DetectedPreamble {
    /// Preamble index
    pub preamble_index: u8,
    /// Timing advance command (units of 16/64 Tc as the PHY reports it)
    pub timing_advance: u16,
}

/// The RAR PDU: subheader 0x40, TA command (12 bits), UL grant filler and
/// the temporary C-RNTI, big-endian.
pub open spec fn rar_bytes(tc_rnti: u16, timing_advance: u16) -> Seq<u8> {
    seq![
        0x40u8,
        ((timing_advance >> 4u16) & 0xFFu16) as u8,
        (((timing_advance & 0x0Fu16) << 4u16) as u8) | 0x0Fu8,
        0xFFu8,
        0xFFu8,
        (tc_rnti >> 8u16) as u8,
        (tc_rnti & 0xFFu16) as u8,
    ]
}

/// Builds a random access response.
pub fn generate_rar(tc_rnti: Rnti, timing_advance: u16) -> (r: bytes::Bytes)
    ensures
        bytes_contents(r) == rar_bytes(tc_rnti.0, timing_advance),
{
    let mut buf: Vec<u8> = Vec::new();
    buf.push(0x40);
    let ta_high = ((timing_advance >> 4u16) & 0xFF) as u8;
    let ta_low = ((timing_advance & 0x0F) << 4u16) as u8;
    buf.push(ta_high);
    buf.push(ta_low | 0x0F);
    buf.push(0xFF);
    buf.push(0xFF);
    buf.push((tc_rnti.0 >> 8u16) as u8);
    buf.push((tc_rnti.0 & 0xFF) as u8);
    assert(buf@ =~= rar_bytes(tc_rnti.0, timing_advance));
    bytes_from_vec(buf)
}

/// Wraps `<bytes::Bytes as Clone>::clone`: a handle to the same bytes.
#[verifier::external_body]
fn bytes_clone(b: &bytes::Bytes) -> (r: bytes::Bytes)
    ensures
        bytes_contents(r) == bytes_contents(*b),
{
    b.clone()
}

/// The MAC state of a cell: scheduler, SIB1 payload, C-RNTI allocation and
/// the random access procedures in progress.
pub struct MacState {
    cell_id: CellId,
    scs: SubcarrierSpacing,
    bandwidth: Bandwidth,
    max_ues: u16,
    scheduler: MacScheduler,
    sib1_generator: Sib1Generator,
    sib1_payload: Option<bytes::Bytes>,
    initialized: bool,
    next_c_rnti: u16,
    ra_procedures: Vec<RandomAccessProcedure>,
}

impl MacState {
    /// The layer has been initialized.
    pub closed spec fn spec_initialized(&self) -> bool {
        self.initialized
    }

    /// The next C-RNTI to hand out.
    pub closed spec fn spec_next_c_rnti(&self) -> u16 {
        self.next_c_rnti
    }

    /// The random access procedures in progress, oldest first.
    pub closed spec fn spec_ra_procedures(&self) -> Seq<RandomAccessProcedure> {
        self.ra_procedures@
    }

    /// The SIB1 configuration.
    pub closed spec fn spec_sib1_config(&self) -> Sib1Config {
        self.sib1_generator.spec_config()
    }

    /// The subcarrier spacing.
    pub closed spec fn spec_scs(&self) -> SubcarrierSpacing {
        self.scs
    }

    /// The SIB1 payload, once generated.
    pub closed spec fn spec_sib1(&self) -> Option<Seq<u8>> {
        match self.sib1_payload {
            Some(b) => Some(bytes_contents(b)),
            None => None,
        }
    }

    /// The CORESET#0 configuration the scheduler places SIB1 with.
    pub closed spec fn spec_coreset0(&self) -> scheduler::Coreset0Config {
        self.scheduler.spec_coreset0()
    }

    /// The state is consistent: its scheduler is built for its spacing and
    /// it holds a SIB1 payload once initialized.
    pub closed spec fn well_formed(&self) -> bool {
        &&& self.scheduler.well_formed()
        &&& self.scheduler.spec_scs() == self.scs
        &&& self.initialized ==> self.sib1_payload is Some
    }

    /// A MAC for a configuration (CORESET#0 row 6), not yet initialized;
    /// C-RNTIs are handed out from 0x4601.
    pub fn new(config: MacConfig) -> (r: Result<Self, LayerError>)
        ensures
            r is Ok,
            r->Ok_0.well_formed(),
            !r->Ok_0.spec_initialized(),
            r->Ok_0.spec_next_c_rnti() == 0x4601,
            r->Ok_0.spec_ra_procedures() == Seq::<RandomAccessProcedure>::empty(),
            r->Ok_0.spec_sib1_config() == config.sib1_config,
            r->Ok_0.spec_scs() == config.scs,
            r->Ok_0.spec_coreset0() == scheduler::coreset0_table(6)->0,
            r->Ok_0.spec_sib1() is None,
    {
        proof {
            assert(coreset0_table(6) is Some);
        }
        let MacConfig { cell_id, scs, bandwidth, max_ues, sib1_config } = config;
        let scheduler = match MacScheduler::new(cell_id, scs, bandwidth, 6) {
            Ok(s) => s,
            Err(e) => {
                return Err(e);
            },
        };
        let sib1_generator = Sib1Generator::new(sib1_config);
        let ra: Vec<RandomAccessProcedure> = Vec::new();
        assert(ra@ =~= Seq::<RandomAccessProcedure>::empty());
        Ok(
            MacState {
                cell_id,
                scs,
                bandwidth,
                max_ues,
                scheduler,
                sib1_generator,
                sib1_payload: None,
                initialized: false,
                next_c_rnti: 0x4601,
                ra_procedures: ra,
            },
        )
    }

    /// Generates the SIB1 payload and marks the layer initialized.
    pub fn initialize(&mut self) -> (r: Result<(), LayerError>)
        requires
            old(self).well_formed(),
            old(self).spec_sib1_config().plmn_id.mnc@.len() >= 2,
        ensures
            r is Ok,
            final(self).well_formed(),
            final(self).spec_initialized(),
            final(self).spec_sib1() == Some(sib1_message(old(self).spec_sib1_config())),
            final(self).spec_next_c_rnti() == old(self).spec_next_c_rnti(),
            final(self).spec_ra_procedures() == old(self).spec_ra_procedures(),
            final(self).spec_sib1_config() == old(self).spec_sib1_config(),
            final(self).spec_scs() == old(self).spec_scs(),
            final(self).spec_coreset0() == old(self).spec_coreset0(),
    {
        let payload = match self.sib1_generator.generate_sib1() {
            Ok(p) => p,
            Err(e) => {
                return Err(e);
            },
        };
        self.sib1_payload = Some(payload);
        self.initialized = true;
        Ok(())
    }

    /// The MAC has been initialized and not shut down since.
    pub fn is_initialized(&self) -> (b: bool)
        ensures
            b == self.spec_initialized(),
    {
        self.initialized
    }

    /// Marks the layer shut down.
    pub fn shutdown(&mut self)
        ensures
            !final(self).spec_initialized(),
            final(self).spec_next_c_rnti() == old(self).spec_next_c_rnti(),
            final(self).spec_ra_procedures() == old(self).spec_ra_procedures(),
            final(self).spec_sib1_config() == old(self).spec_sib1_config(),
            final(self).spec_sib1() == old(self).spec_sib1(),
            final(self).spec_scs() == old(self).spec_scs(),
            final(self).spec_coreset0() == old(self).spec_coreset0(),
            old(self).well_formed() ==> final(self).well_formed(),
    {
        self.initialized = false;
    }

    /// The schedule of a slot, once initialized.
    pub fn get_slot_schedule(&self, frame: u32, slot: u8) -> (r: Result<SlotSchedule, LayerError>)
        requires
            self.well_formed(),
            frame * scheduler::frame_slots(self.spec_scs()) + slot <= u32::MAX,
        ensures
            !self.spec_initialized() ==> r == Err::<SlotSchedule, LayerError>(LayerError::NotInitialized),
            self.spec_initialized() ==> r is Ok && scheduler::slot_schedule_spec(
                r->Ok_0,
                frame,
                slot,
                self.spec_scs(),
                self.spec_coreset0(),
            ),
    {
        if !self.initialized {
            return Err(LayerError::NotInitialized);
        }
        Ok(self.scheduler.get_slot_schedule(frame, slot))
    }

    /// The SIB1 payload, once initialized.
    pub fn get_sib1_payload(&self) -> (r: Result<bytes::Bytes, LayerError>)
        requires
            self.well_formed(),
        ensures
            !self.spec_initialized() ==> r == Err::<bytes::Bytes, LayerError>(LayerError::NotInitialized),
            self.spec_initialized() ==> r is Ok && Some(bytes_contents(r->Ok_0)) == self.spec_sib1(),
    {
        if !self.initialized {
            return Err(LayerError::NotInitialized);
        }
        match &self.sib1_payload {
            Some(p) => Ok(bytes_clone(p)),
            None => Err(LayerError::InvalidState("SIB1 payload not generated".to_owned())),
        }
    }

    /// Hands out the next C-RNTI (counting up, wrapping at 16 bits).
    pub fn allocate_c_rnti(&mut self) -> (r: Rnti)
        ensures
            r.0 == old(self).spec_next_c_rnti(),
            final(self).spec_next_c_rnti() == next_rnti(old(self).spec_next_c_rnti()),
            final(self).spec_initialized() == old(self).spec_initialized(),
            final(self).spec_ra_procedures() == old(self).spec_ra_procedures(),
            final(self).spec_sib1_config() == old(self).spec_sib1_config(),
            final(self).spec_sib1() == old(self).spec_sib1(),
            final(self).spec_scs() == old(self).spec_scs(),
            final(self).spec_coreset0() == old(self).spec_coreset0(),
            old(self).well_formed() ==> final(self).well_formed(),
    {
        let v = self.next_c_rnti;
        self.next_c_rnti = if v == 0xFFFF { 0 } else { v + 1 };
        Rnti::new(v)
    }

    /// Starts a random access procedure for each detected preamble, each
    /// with a newly allocated temporary C-RNTI.
    pub fn report_prach_detection(&mut self, frame: u32, slot: u8, preambles: &[DetectedPreamble]) -> (r: Result<(), LayerError>)
        ensures
            !old(self).spec_initialized() ==> r == Err::<(), LayerError>(LayerError::NotInitialized)
                && final(self).spec_ra_procedures() == old(self).spec_ra_procedures()
                && final(self).spec_next_c_rnti() == old(self).spec_next_c_rnti(),
            old(self).spec_initialized() ==> r is Ok && final(self).spec_ra_procedures() == old(
                self,
            ).spec_ra_procedures() + Seq::new(
                preambles@.len(),
                |i: int|
                    RandomAccessProcedure {
                        tc_rnti: Rnti(((old(self).spec_next_c_rnti() + i) % 0x10000) as u16),
                        timing_advance: preambles@[i].timing_advance,
                        prach_frame: frame,
                        prach_slot: slot,
                        preamble_index: preambles@[i].preamble_index,
                    },
            ) && final(self).spec_next_c_rnti() == ((old(self).spec_next_c_rnti() + preambles@.len())
                % 0x10000) as u16,
            final(self).spec_initialized() == old(self).spec_initialized(),
            final(self).spec_sib1_config() == old(self).spec_sib1_config(),
            final(self).spec_sib1() == old(self).spec_sib1(),
            final(self).spec_scs() == old(self).spec_scs(),
            final(self).spec_coreset0() == old(self).spec_coreset0(),
            old(self).well_formed() ==> final(self).well_formed(),
    {
        if !self.initialized {
            return Err(LayerError::NotInitialized);
        }
        let ghost start = self.next_c_rnti as int;
        let ghost before = self.ra_procedures@;
        let mut i: usize = 0;
        while i < preambles.len()
            invariant
                i <= preambles@.len(),
                self.initialized == old(self).spec_initialized(),
                self.spec_sib1_config() == old(self).spec_sib1_config(),
                self.spec_sib1() == old(self).spec_sib1(),
                self.scs == old(self).scs,
                self.spec_coreset0() == old(self).spec_coreset0(),
                old(self).well_formed() ==> self.well_formed(),
                before == old(self).spec_ra_procedures(),
                start == old(self).spec_next_c_rnti(),
                self.next_c_rnti == ((start + i) % 0x10000) as u16,
                self.ra_procedures@ == before + Seq::new(
                    i as nat,
                    |k: int|
                        RandomAccessProcedure {
                            tc_rnti: Rnti(((start + k) % 0x10000) as u16),
                            timing_advance: preambles@[k].timing_advance,
                            prach_frame: frame,
                            prach_slot: slot,
                            preamble_index: preambles@[k].preamble_index,
                        },
                ),
            decreases preambles@.len() - i,
        {
            let p = preambles[i];
            let tc_rnti = self.allocate_c_rnti();
            self.ra_procedures.push(
                RandomAccessProcedure {
                    tc_rnti,
                    timing_advance: p.timing_advance,
                    prach_frame: frame,
                    prach_slot: slot,
                    preamble_index: p.preamble_index,
                },
            );
            i = i + 1;
            assert(self.ra_procedures@ =~= before + Seq::new(
                i as nat,
                |k: int|
                    RandomAccessProcedure {
                        tc_rnti: Rnti(((start + k) % 0x10000) as u16),
                        timing_advance: preambles@[k].timing_advance,
                        prach_frame: frame,
                        prach_slot: slot,
                        preamble_index: preambles@[k].preamble_index,
                    },
            ));
        }
        Ok(())
    }

    /// The temporary C-RNTI whose Msg3 an uplink PDU is taken to carry: that
    /// of the oldest random access procedure, if any.
    pub fn msg3_rnti(&self) -> (r: Option<Rnti>)
        ensures
            r == (if self.spec_ra_procedures().len() > 0 {
                Some(self.spec_ra_procedures()[0].tc_rnti)
            } else {
                None::<Rnti>
            }),
    {
        if self.ra_procedures.len() > 0 {
            Some(self.ra_procedures[0].tc_rnti)
        } else {
            None
        }
    }
}

/// The C-RNTI counter after handing out `v`: the next value, wrapping at
/// 16 bits.
pub open spec fn next_rnti(v: u16) -> u16 {
    if v == 0xFFFF {
        0
    } else {
        (v + 1) as u16
    }
}

/// Two C-RNTIs allocated one after the other differ: the counter never
/// hands out the same value twice in a row.
pub proof fn lemma_c_rnti_allocations_differ(v: u16)
    ensures
        next_rnti(v) != v,
{
}

} // verus!
