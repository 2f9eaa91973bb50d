//! PRACH: preamble formats, the FDD configuration table, RACH parameters,
//! occasion timing and the preamble/root-sequence layout the detector
//! searches.
use vstd::prelude::*;
use crate::common::types::CellId;
use crate::layers::LayerError;

verus! {

/// Length of the long preamble sequence (formats 0-3).
pub const LONG_SEQUENCE_LENGTH: usize = 839;

/// Length of the short preamble sequence (formats A1-C2).
pub const SHORT_SEQUENCE_LENGTH: usize = 139;

/// Number of preambles per cell.
pub const MAX_NUM_PREAMBLES: usize = 64;

/// Number of root sequences of the long format.
pub const MAX_NUM_ROOT_SEQUENCES: usize = 838;

/// PRACH preamble formats.
#[derive(Debug, Clone, Copy, PartialEq, Eq, Structural)]
pub enum PrachFormat {
    /// Format 0 (839, 1 ms)
    Format0,
    /// Format 1 (839, 2 ms)
    Format1,
    /// Format 2 (839, 4 ms)
    Format2,
    /// Format 3 (839, 4 ms)
    Format3,
    /// Format A1 (139)
    FormatA1,
    /// Format A2 (139)
    FormatA2,
    /// Format A3 (139)
    FormatA3,
    /// Format B1 (139)
    FormatB1,
    /// Format B4 (139)
    FormatB4,
    /// Format C0 (139)
    FormatC0,
    /// Format C2 (139)
    FormatC2,
}

/// Long formats: 0 to 3.
pub open spec fn format_is_long(f: PrachFormat) -> bool {
    f == PrachFormat::Format0 || f == PrachFormat::Format1 || f == PrachFormat::Format2 || f
        == PrachFormat::Format3
}

/// PRACH symbols of a format.
pub open spec fn format_symbols(f: PrachFormat) -> usize {
    match f {
        PrachFormat::Format0 => 1,
        PrachFormat::Format1 => 2,
        PrachFormat::Format2 => 4,
        PrachFormat::Format3 => 4,
        PrachFormat::FormatA1 => 2,
        PrachFormat::FormatA2 => 4,
        PrachFormat::FormatA3 => 6,
        PrachFormat::FormatB1 => 2,
        PrachFormat::FormatB4 => 12,
        PrachFormat::FormatC0 => 1,
        PrachFormat::FormatC2 => 4,
    }
}

impl PrachFormat {
    /// The format uses the long (839) sequence.
    pub fn is_long(&self) -> (r: bool)
        ensures
            r == format_is_long(*self),
    {
        match self {
            PrachFormat::Format0 | PrachFormat::Format1 | PrachFormat::Format2
            | PrachFormat::Format3 => true,
            _ => false,
        }
    }

    /// Sequence length: 839 for long formats, 139 otherwise.
    pub fn sequence_length(&self) -> (r: usize)
        ensures
            r == (if format_is_long(*self) { 839usize } else { 139usize }),
    {
        if self.is_long() {
            LONG_SEQUENCE_LENGTH
        } else {
            SHORT_SEQUENCE_LENGTH
        }
    }

    /// Number of PRACH symbols.
    pub fn num_symbols(&self) -> (r: usize)
        ensures
            r == format_symbols(*self),
    {
        match self {
            PrachFormat::Format0 => 1,
            PrachFormat::Format1 => 2,
            PrachFormat::Format2 => 4,
            PrachFormat::Format3 => 4,
            PrachFormat::FormatA1 => 2,
            PrachFormat::FormatA2 => 4,
            PrachFormat::FormatA3 => 6,
            PrachFormat::FormatB1 => 2,
            PrachFormat::FormatB4 => 12,
            PrachFormat::FormatC0 => 1,
            PrachFormat::FormatC2 => 4,
        }
    }
}

/// Restricted set configuration.
#[derive(Debug, Clone, Copy, PartialEq, Eq, Structural)]
pub enum RestrictedSetConfig {
    /// Unrestricted set
    UnrestrictedSet,
    /// Restricted set type A
    RestrictedSetTypeA,
    /// Restricted set type B
    RestrictedSetTypeB,
}

/// One row of the PRACH configuration table.
#[derive(Debug, Clone)]
pub struct PrachConfigurationIndex {
    /// Preamble format
    pub format: PrachFormat,
    /// System frame period x
    pub x: u32,
    /// System frame offsets y
    pub y: Vec<u8>,
    /// Subframes of the frame
    pub subframe_numbers: Vec<u8>,
    /// Starting symbol
    pub starting_symbol: u8,
    /// PRACH slots within a subframe
    pub num_prach_slots_within_subframe: u8,
    /// PRACH occasions within a slot
    pub num_occasions_within_slot: u8,
    /// Duration in symbols
    pub duration: u8,
}

/// PRACH subcarrier spacing.
#[derive(Debug, Clone, Copy, PartialEq, Eq, Structural)]
pub enum PrachSubcarrierSpacing {
    /// 1.25 kHz (long sequences)
    Khz1_25,
    /// 5 kHz (short sequences)
    Khz5,
}

/// Frame period x of FDD rows 0..=7 (all format 0).
pub open spec fn prach_fdd_x(index: u8) -> u32 {
    if index == 0 {
        16
    } else if index == 1 {
        8
    } else if index == 2 {
        4
    } else if index <= 5 {
        2
    } else {
        1
    }
}

/// Frame offsets y of FDD rows 0..=7.
pub open spec fn prach_fdd_y(index: u8) -> Seq<u8> {
    if index <= 2 || index == 4 {
        seq![1u8]
    } else if index == 5 {
        seq![0u8, 1u8]
    } else {
        seq![0u8]
    }
}

/// Subframes of FDD rows 0..=7.
pub open spec fn prach_fdd_subframes(index: u8) -> Seq<u8> {
    if index == 7 {
        seq![8u8, 9u8]
    } else {
        seq![9u8]
    }
}

/// The FDD PRACH configuration row for `index`, for the rows 0..=7 of the
/// table this cell supports (format 0, starting symbol 0, one slot and one
/// occasion of one symbol).
pub fn get_prach_config_fdd(index: u8) -> (r: Option<PrachConfigurationIndex>)
    ensures
        r is Some <==> index <= 7,
        r is Some ==> ({
            let c = r->0;
            &&& c.format == PrachFormat::Format0
            &&& c.x == prach_fdd_x(index)
            &&& c.y@ == prach_fdd_y(index)
            &&& c.subframe_numbers@ == prach_fdd_subframes(index)
            &&& c.starting_symbol == 0
            &&& c.num_prach_slots_within_subframe == 1
            &&& c.num_occasions_within_slot == 1
            &&& c.duration == 1
        }),
{
    if index > 7 {
        return None;
    }
    let x: u32 = match index {
        0 => 16,
        1 => 8,
        2 => 4,
        3 | 4 | 5 => 2,
        _ => 1,
    };
    let y: Vec<u8> = match index {
        0 | 1 | 2 | 4 => vec![1],
        5 => vec![0, 1],
        _ => vec![0],
    };
    let subframe_numbers: Vec<u8> = if index == 7 {
        vec![8, 9]
    } else {
        vec![9]
    };
    assert(y@ =~= prach_fdd_y(index));
    assert(subframe_numbers@ =~= prach_fdd_subframes(index));
    Some(
        PrachConfigurationIndex {
            format: PrachFormat::Format0,
            x,
            y,
            subframe_numbers,
            starting_symbol: 0,
            num_prach_slots_within_subframe: 1,
            num_occasions_within_slot: 1,
            duration: 1,
        },
    )
}

/// RACH configuration common to the cell.
#[derive(Debug, Clone, Copy, PartialEq, Eq, Structural)]
pub struct RachConfigCommon {
    /// PRACH configuration index
    pub prach_config_index: u8,
    /// RAR window in slots
    pub ra_response_window: u32,
    /// PRACH occasions multiplexed in frequency
    pub msg1_fdm: u32,
    /// PRACH frequency start offset
    pub msg1_frequency_start: u32,
    /// Zero correlation zone configuration
    pub zero_correlation_zone_config: u16,
    /// Target received power in dBm
    pub preamble_rx_target_power: i16,
    /// Maximum preamble transmissions
    pub preamble_trans_max: u8,
    /// Power ramping step in dB
    pub power_ramping_step_db: u8,
    /// Number of RA preambles
    pub total_num_ra_preambles: u8,
    /// First root sequence index
    pub prach_root_seq_index: u16,
    /// PRACH subcarrier spacing
    pub msg1_scs: PrachSubcarrierSpacing,
    /// Restricted set configuration
    pub restricted_set: RestrictedSetConfig,
}

/// The default RACH configuration: FDD row 0, 10-slot RAR window, one
/// occasion from PRB 0, zero correlation zone 12, -104 dBm target, 7
/// attempts with 4 dB steps, 64 preambles from root 0, 1.25 kHz, unrestricted.
pub open spec fn default_rach_config() -> RachConfigCommon {
    RachConfigCommon {
        prach_config_index: 0,
        ra_response_window: 10,
        msg1_fdm: 1,
        msg1_frequency_start: 0,
        zero_correlation_zone_config: 12,
        preamble_rx_target_power: -104i16,
        preamble_trans_max: 7,
        power_ramping_step_db: 4,
        total_num_ra_preambles: 64,
        prach_root_seq_index: 0,
        msg1_scs: PrachSubcarrierSpacing::Khz1_25,
        restricted_set: RestrictedSetConfig::UnrestrictedSet,
    }
}

impl Default for RachConfigCommon {
    /// The default RACH configuration.
    fn default() -> (c: Self)
        ensures
            c == default_rach_config(),
    {
        RachConfigCommon {
            prach_config_index: 0,
            ra_response_window: 10,
            msg1_fdm: 1,
            msg1_frequency_start: 0,
            zero_correlation_zone_config: 12,
            preamble_rx_target_power: -104,
            preamble_trans_max: 7,
            power_ramping_step_db: 4,
            total_num_ra_preambles: 64,
            prach_root_seq_index: 0,
            msg1_scs: PrachSubcarrierSpacing::Khz1_25,
            restricted_set: RestrictedSetConfig::UnrestrictedSet,
        }
    }
}

/// Cyclic shift N_cs of a zero correlation zone configuration (119 for
/// values past the table).
pub open spec fn ncs_table(zczc: u16) -> u32 {
    if zczc > 15 {
        119
    } else {
        seq![0u32, 13, 15, 18, 22, 26, 32, 38, 46, 59, 76, 93, 119, 167, 279, 419][zczc as int]
    }
}

/// A PRACH occasion: the frame's offset in the period x is one of the y
/// offsets and the slot (one per subframe at 15 kHz) is a PRACH subframe.
pub open spec fn prach_occasion_spec(index: u8, frame: u32, slot: u8) -> bool {
    &&& index <= 7
    &&& prach_fdd_y(index).contains((frame % prach_fdd_x(index)) as u8)
    &&& prach_fdd_subframes(index).contains(slot)
}

/// Preambles per root sequence: L / N_cs capped at 64 (1 without cyclic
/// shifts).
pub open spec fn shifts_per_root(seq_length: nat, ncs: nat) -> nat {
    if ncs > 0 {
        let q = seq_length / ncs;
        if q < 64 {
            q
        } else {
            64
        }
    } else {
        1
    }
}

/// PRACH timing and layout for a cell (the correlation itself works on
/// samples and stays outside).
pub struct PrachDetector {
    cell_id: CellId,
    rach_config: RachConfigCommon,
}

/// `v` occurs in `s`.
fn contains_u8(s: &Vec<u8>, v: u8) -> (r: bool)
    ensures
        r == s@.contains(v),
{
    let mut i: usize = 0;
    while i < s.len()
        invariant
            i <= s@.len(),
            forall|k: int| 0 <= k < i ==> s@[k] != v,
        decreases s@.len() - i,
    {
        if s[i] == v {
            assert(s@[i as int] == v);
            return true;
        }
        i = i + 1;
    }
    false
}

impl PrachDetector {
    /// The RACH configuration.
    pub closed spec fn spec_rach_config(&self) -> RachConfigCommon {
        self.rach_config
    }

    /// The cell identity.
    pub closed spec fn spec_cell_id(&self) -> CellId {
        self.cell_id
    }

    /// A detector for a cell and RACH configuration.
    pub fn new(cell_id: CellId, rach_config: RachConfigCommon) -> (r: Result<Self, LayerError>)
        ensures
            r is Ok,
            r->Ok_0.spec_cell_id() == cell_id,
            r->Ok_0.spec_rach_config() == rach_config,
    {
        Ok(PrachDetector { cell_id, rach_config })
    }

    /// The cyclic shift N_cs of the configured zero correlation zone.
    pub fn get_cyclic_shift(&self) -> (r: u32)
        ensures
            r == ncs_table(self.spec_rach_config().zero_correlation_zone_config),
    {
        match self.rach_config.zero_correlation_zone_config {
            0 => 0,
            1 => 13,
            2 => 15,
            3 => 18,
            4 => 22,
            5 => 26,
            6 => 32,
            7 => 38,
            8 => 46,
            9 => 59,
            10 => 76,
            11 => 93,
            12 => 119,
            13 => 167,
            14 => 279,
            15 => 419,
            _ => 119,
        }
    }

    /// The slot is a PRACH occasion of the configured row.
    pub fn is_prach_occasion(&self, frame: u32, slot: u8) -> (r: bool)
        ensures
            r == prach_occasion_spec(self.spec_rach_config().prach_config_index, frame, slot),
    {
        let config = match get_prach_config_fdd(self.rach_config.prach_config_index) {
            Some(c) => c,
            None => {
                return false;
            },
        };
        let frame_in_period = frame % config.x;
        if !contains_u8(&config.y, frame_in_period as u8) {
            return false;
        }
        let subframe = slot;
        contains_u8(&config.subframe_numbers, subframe)
    }

    /// The preamble layout searched in an occasion: preambles per root
    /// sequence and the number of root sequences covering 64 preambles.
    pub fn preamble_layout(&self, seq_length: usize) -> (r: (usize, usize))
        requires
            seq_length <= 839,
        ensures
            r.0 == shifts_per_root(
                seq_length as nat,
                ncs_table(self.spec_rach_config().zero_correlation_zone_config) as nat,
            ),
            r.0 >= 1 ==> r.1 == (64 + r.0 - 1) / (r.0 as int),
    {
        let n_cs = self.get_cyclic_shift();
        let num_shifts: usize = if n_cs > 0 {
            let q = seq_length as u32 / n_cs;
            if q < 64 {
                q as usize
            } else {
                64
            }
        } else {
            1
        };
        if num_shifts == 0 {
            return (0, 0);
        }
        let num_sequences = (64 + num_shifts - 1) / num_shifts;
        (num_shifts, num_sequences)
    }

    /// The 64 root sequence indices used: the configured first root, then
    /// its successors wrapping at 838 (long) or 138 (short) roots.
    pub fn root_sequence_indices(&self, seq_length: usize) -> (r: Vec<u16>)
        requires
            self.spec_rach_config().prach_root_seq_index < 0xFFFF,
        ensures
            r@.len() == 64,
            r@[0] == self.spec_rach_config().prach_root_seq_index,
            forall|i: int|
                1 <= i < 64 ==> r@[i] == (self.spec_rach_config().prach_root_seq_index as int + i) % (
                if seq_length == 839 {
                    838int
                } else {
                    138int
                }),
    {
        let max_roots: u16 = if seq_length == LONG_SEQUENCE_LENGTH {
            838
        } else {
            138
        };
        let mut root = self.rach_config.prach_root_seq_index;
        let ghost first = root as int;
        let mut out: Vec<u16> = Vec::new();
        let mut i: usize = 0;
        while i < 64
            invariant
                i <= 64,
                max_roots == (if seq_length == 839 { 838u16 } else { 138u16 }),
                first == self.spec_rach_config().prach_root_seq_index,
                first < 0xFFFF,
                out@.len() == i,
                i == 0 ==> root == first,
                i > 0 ==> root == (first + i) % (max_roots as int),
                i > 0 ==> out@[0] == first,
                forall|k: int| 1 <= k < i ==> out@[k] == (first + k) % (max_roots as int),
            decreases 64 - i,
        {
            out.push(root);
            proof {
                vstd::arithmetic::div_mod::lemma_add_mod_noop(first + i, 1, max_roots as int);
                vstd::arithmetic::div_mod::lemma_mod_twice(first + i, max_roots as int);
            }
            root = (root + 1) % max_roots;
            i = i + 1;
        }
        out
    }

    /// Start of the correlation window of cyclic shift `shift_idx`.
    pub fn shift_window_start(&self, shift_idx: usize) -> (r: usize)
        requires
            shift_idx < 64,
        ensures
            r == shift_idx * ncs_table(self.spec_rach_config().zero_correlation_zone_config),
    {
        let n_cs = self.get_cyclic_shift();
        if n_cs > 0 {
            assert(shift_idx * n_cs <= 64 * 419) by (nonlinear_arith)
                requires
                    shift_idx < 64,
                    n_cs <= 419,
            ;
            (shift_idx as u32 * n_cs) as usize
        } else {
            assert(shift_idx * n_cs == 0) by (nonlinear_arith)
                requires
                    n_cs == 0,
            ;
            0
        }
    }
}

} // verus!
