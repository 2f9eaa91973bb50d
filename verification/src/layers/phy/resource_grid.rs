//! Resource grid of one slot: a value for every FFT bin of every OFDM
//! symbol, and the mapping of resource elements, PSS/SSS, PBCH and PBCH
//! DMRS onto those bins.
use vstd::prelude::*;
use crate::common::types::{Bandwidth, SubcarrierSpacing};
use crate::layers::LayerError;
use crate::common::text::{
    bandwidth_name, bandwidth_name_spec, decimal, push_decimal, push_str, scs_name, scs_name_spec,
};
use crate::layers::phy::dmrs::{
    DmrsSequenceGenerator,
    calculate_pbch_dmrs_cinit,
    dmrs_initial_state,
    gold_advance,
    gold_bit_at,
    lemma_gold_advance_add,
    pbch_dmrs_cinit,
};

verus! {

/// A resource block: twelve consecutive subcarriers.
#[derive(Debug, Clone, Copy, PartialEq, Eq, Structural)]
pub struct ResourceBlock {
    /// RB index
    pub index: u16,
    /// Starting subcarrier
    pub start_subcarrier: u16,
}

impl ResourceBlock {
    /// Number of subcarriers per RB
    pub const SUBCARRIERS_PER_RB: u16 = 12;

    /// The resource block with the given index.
    pub fn new(index: u16) -> (rb: Self)
        requires
            index * 12 <= u16::MAX,
        ensures
            rb.index == index,
            rb.start_subcarrier == index * 12,
    {
        ResourceBlock { index, start_subcarrier: index * Self::SUBCARRIERS_PER_RB }
    }
}

/// Resource blocks of a channel bandwidth at a subcarrier spacing; `None`
/// for combinations the grid does not support.
pub open spec fn num_rbs_spec(bandwidth: Bandwidth, scs: SubcarrierSpacing) -> Option<u16> {
    match (bandwidth, scs) {
        (Bandwidth::Bw5, SubcarrierSpacing::Scs15) => Some(25),
        (Bandwidth::Bw5, SubcarrierSpacing::Scs30) => Some(11),
        (Bandwidth::Bw10, SubcarrierSpacing::Scs15) => Some(52),
        (Bandwidth::Bw10, SubcarrierSpacing::Scs30) => Some(24),
        (Bandwidth::Bw10, SubcarrierSpacing::Scs60) => Some(11),
        (Bandwidth::Bw15, SubcarrierSpacing::Scs15) => Some(79),
        (Bandwidth::Bw15, SubcarrierSpacing::Scs30) => Some(38),
        (Bandwidth::Bw15, SubcarrierSpacing::Scs60) => Some(18),
        (Bandwidth::Bw20, SubcarrierSpacing::Scs15) => Some(106),
        (Bandwidth::Bw20, SubcarrierSpacing::Scs30) => Some(51),
        (Bandwidth::Bw20, SubcarrierSpacing::Scs60) => Some(24),
        (Bandwidth::Bw25, SubcarrierSpacing::Scs15) => Some(133),
        (Bandwidth::Bw25, SubcarrierSpacing::Scs30) => Some(65),
        (Bandwidth::Bw25, SubcarrierSpacing::Scs60) => Some(31),
        (Bandwidth::Bw30, SubcarrierSpacing::Scs15) => Some(160),
        (Bandwidth::Bw30, SubcarrierSpacing::Scs30) => Some(78),
        (Bandwidth::Bw30, SubcarrierSpacing::Scs60) => Some(38),
        (Bandwidth::Bw40, SubcarrierSpacing::Scs15) => Some(216),
        (Bandwidth::Bw40, SubcarrierSpacing::Scs30) => Some(106),
        (Bandwidth::Bw40, SubcarrierSpacing::Scs60) => Some(51),
        (Bandwidth::Bw50, SubcarrierSpacing::Scs15) => Some(270),
        (Bandwidth::Bw50, SubcarrierSpacing::Scs30) => Some(133),
        (Bandwidth::Bw50, SubcarrierSpacing::Scs60) => Some(65),
        (Bandwidth::Bw50, SubcarrierSpacing::Scs120) => Some(31),
        (Bandwidth::Bw60, SubcarrierSpacing::Scs30) => Some(162),
        (Bandwidth::Bw60, SubcarrierSpacing::Scs60) => Some(79),
        (Bandwidth::Bw60, SubcarrierSpacing::Scs120) => Some(38),
        (Bandwidth::Bw80, SubcarrierSpacing::Scs30) => Some(217),
        (Bandwidth::Bw80, SubcarrierSpacing::Scs60) => Some(107),
        (Bandwidth::Bw80, SubcarrierSpacing::Scs120) => Some(51),
        (Bandwidth::Bw100, SubcarrierSpacing::Scs30) => Some(273),
        (Bandwidth::Bw100, SubcarrierSpacing::Scs60) => Some(135),
        (Bandwidth::Bw100, SubcarrierSpacing::Scs120) => Some(65),
        _ => None,
    }
}

/// The message refusing a bandwidth and SCS pair, by their variant names.
pub open spec fn invalid_combination_text(bandwidth: Bandwidth, scs: SubcarrierSpacing) -> Seq<char> {
    "Invalid bandwidth "@ + bandwidth_name_spec(bandwidth) + " and SCS "@ + scs_name_spec(scs) + " combination"@
}

/// The message refusing a resource element outside the grid.
pub open spec fn re_out_of_bounds_text(subcarrier: nat, symbol: nat) -> Seq<char> {
    "RE out of bounds: subcarrier="@ + decimal(subcarrier) + ", symbol="@ + decimal(symbol)
}

/// The message refusing a resource block outside the grid.
pub open spec fn rb_out_of_bounds_text(rb_index: nat) -> Seq<char> {
    "RB index "@ + decimal(rb_index) + " out of bounds"@
}

/// The message refusing a PSS or SSS (named by `kind`) that is not 127 long.
pub open spec fn sync_length_text(kind: Seq<char>, len: nat) -> Seq<char> {
    kind + " sequence length must be 127, got "@ + decimal(len)
}

/// The message refusing a PBCH that is not 432 symbols long.
pub open spec fn pbch_length_text(len: nat) -> Seq<char> {
    "PBCH symbols length must be 432, got "@ + decimal(len)
}

/// The message refusing a PBCH relative symbol other than 1, 2 or 3.
pub open spec fn pbch_symbol_text(relative_symbol: nat) -> Seq<char> {
    "Invalid PBCH relative symbol position: "@ + decimal(relative_symbol)
}

/// The message refusing a PBCH DMRS relative symbol other than 1, 2 or 3.
pub open spec fn pbch_dmrs_symbol_text(relative_symbol: nat) -> Seq<char> {
    "Invalid PBCH DMRS relative symbol: "@ + decimal(relative_symbol)
}

/// The message refusing a symbol outside the slot.
pub open spec fn symbol_out_of_bounds_text(symbol: nat) -> Seq<char> {
    "Symbol "@ + decimal(symbol) + " out of bounds"@
}

/// The message refusing symbol data that is not one FFT long.
pub open spec fn data_length_text(len: nat, fft_size: nat) -> Seq<char> {
    "Data length "@ + decimal(len) + " doesn't match FFT size "@ + decimal(fft_size)
}

/// The message of a sample that falls outside the FFT.
pub open spec fn fft_index_text() -> Seq<char> {
    "FFT index out of bounds"@
}

/// The message refusing a bandwidth and SCS pair.
fn invalid_combination_message(bandwidth: Bandwidth, scs: SubcarrierSpacing) -> (m: String)
    ensures
        m@ == invalid_combination_text(bandwidth, scs),
{
    let mut m = String::new();
    push_str(&mut m, "Invalid bandwidth ");
    push_str(&mut m, bandwidth_name(bandwidth));
    push_str(&mut m, " and SCS ");
    push_str(&mut m, scs_name(scs));
    push_str(&mut m, " combination");
    assert(m@ =~= invalid_combination_text(bandwidth, scs));
    m
}

/// The message refusing a resource element outside the grid.
fn re_out_of_bounds_message(subcarrier: u16, symbol: u8) -> (m: String)
    ensures
        m@ == re_out_of_bounds_text(subcarrier as nat, symbol as nat),
{
    let mut m = String::new();
    push_str(&mut m, "RE out of bounds: subcarrier=");
    push_decimal(&mut m, subcarrier as u64);
    push_str(&mut m, ", symbol=");
    push_decimal(&mut m, symbol as u64);
    assert(m@ =~= re_out_of_bounds_text(subcarrier as nat, symbol as nat));
    m
}

/// The message refusing a resource block outside the grid.
fn rb_out_of_bounds_message(rb_index: u16) -> (m: String)
    ensures
        m@ == rb_out_of_bounds_text(rb_index as nat),
{
    let mut m = String::new();
    push_str(&mut m, "RB index ");
    push_decimal(&mut m, rb_index as u64);
    push_str(&mut m, " out of bounds");
    assert(m@ =~= rb_out_of_bounds_text(rb_index as nat));
    m
}

/// The message refusing a PSS or SSS that is not 127 long.
fn sync_length_message(kind: &str, len: usize) -> (m: String)
    ensures
        m@ == sync_length_text(kind@, len as nat),
{
    let mut m = String::new();
    push_str(&mut m, kind);
    push_str(&mut m, " sequence length must be 127, got ");
    push_decimal(&mut m, len as u64);
    assert(m@ =~= sync_length_text(kind@, len as nat));
    m
}

/// The message refusing a PBCH that is not 432 symbols long.
fn pbch_length_message(len: usize) -> (m: String)
    ensures
        m@ == pbch_length_text(len as nat),
{
    let mut m = String::new();
    push_str(&mut m, "PBCH symbols length must be 432, got ");
    push_decimal(&mut m, len as u64);
    assert(m@ =~= pbch_length_text(len as nat));
    m
}

/// The message refusing a PBCH relative symbol.
fn pbch_symbol_message(relative_symbol: u8) -> (m: String)
    ensures
        m@ == pbch_symbol_text(relative_symbol as nat),
{
    let mut m = String::new();
    push_str(&mut m, "Invalid PBCH relative symbol position: ");
    push_decimal(&mut m, relative_symbol as u64);
    assert(m@ =~= pbch_symbol_text(relative_symbol as nat));
    m
}

/// The message refusing a PBCH DMRS relative symbol.
fn pbch_dmrs_symbol_message(relative_symbol: u8) -> (m: String)
    ensures
        m@ == pbch_dmrs_symbol_text(relative_symbol as nat),
{
    let mut m = String::new();
    push_str(&mut m, "Invalid PBCH DMRS relative symbol: ");
    push_decimal(&mut m, relative_symbol as u64);
    assert(m@ =~= pbch_dmrs_symbol_text(relative_symbol as nat));
    m
}

/// The message refusing a symbol outside the slot.
fn symbol_out_of_bounds_message(symbol: u8) -> (m: String)
    ensures
        m@ == symbol_out_of_bounds_text(symbol as nat),
{
    let mut m = String::new();
    push_str(&mut m, "Symbol ");
    push_decimal(&mut m, symbol as u64);
    push_str(&mut m, " out of bounds");
    assert(m@ =~= symbol_out_of_bounds_text(symbol as nat));
    m
}

/// The message refusing symbol data of the wrong length.
fn data_length_message(len: usize, fft_size: usize) -> (m: String)
    ensures
        m@ == data_length_text(len as nat, fft_size as nat),
{
    let mut m = String::new();
    push_str(&mut m, "Data length ");
    push_decimal(&mut m, len as u64);
    push_str(&mut m, " doesn't match FFT size ");
    push_decimal(&mut m, fft_size as u64);
    assert(m@ =~= data_length_text(len as nat, fft_size as nat));
    m
}

/// The number of resource blocks of a bandwidth at a subcarrier spacing;
/// an `InvalidConfiguration` error for an unsupported pair.
pub fn calculate_num_rbs(bandwidth: Bandwidth, scs: SubcarrierSpacing) -> (r: Result<u16, LayerError>)
    ensures
        num_rbs_spec(bandwidth, scs) is Some ==> r == Ok::<u16, LayerError>(num_rbs_spec(bandwidth, scs)->0),
        num_rbs_spec(bandwidth, scs) is None ==> r is Err && r->Err_0 is InvalidConfiguration,
        r is Err ==> r->Err_0->InvalidConfiguration_0@ == invalid_combination_text(bandwidth, scs),
{
    let n: u16 = match (bandwidth, scs) {
        (Bandwidth::Bw5, SubcarrierSpacing::Scs15) => 25,
        (Bandwidth::Bw5, SubcarrierSpacing::Scs30) => 11,
        (Bandwidth::Bw10, SubcarrierSpacing::Scs15) => 52,
        (Bandwidth::Bw10, SubcarrierSpacing::Scs30) => 24,
        (Bandwidth::Bw10, SubcarrierSpacing::Scs60) => 11,
        (Bandwidth::Bw15, SubcarrierSpacing::Scs15) => 79,
        (Bandwidth::Bw15, SubcarrierSpacing::Scs30) => 38,
        (Bandwidth::Bw15, SubcarrierSpacing::Scs60) => 18,
        (Bandwidth::Bw20, SubcarrierSpacing::Scs15) => 106,
        (Bandwidth::Bw20, SubcarrierSpacing::Scs30) => 51,
        (Bandwidth::Bw20, SubcarrierSpacing::Scs60) => 24,
        (Bandwidth::Bw25, SubcarrierSpacing::Scs15) => 133,
        (Bandwidth::Bw25, SubcarrierSpacing::Scs30) => 65,
        (Bandwidth::Bw25, SubcarrierSpacing::Scs60) => 31,
        (Bandwidth::Bw30, SubcarrierSpacing::Scs15) => 160,
        (Bandwidth::Bw30, SubcarrierSpacing::Scs30) => 78,
        (Bandwidth::Bw30, SubcarrierSpacing::Scs60) => 38,
        (Bandwidth::Bw40, SubcarrierSpacing::Scs15) => 216,
        (Bandwidth::Bw40, SubcarrierSpacing::Scs30) => 106,
        (Bandwidth::Bw40, SubcarrierSpacing::Scs60) => 51,
        (Bandwidth::Bw50, SubcarrierSpacing::Scs15) => 270,
        (Bandwidth::Bw50, SubcarrierSpacing::Scs30) => 133,
        (Bandwidth::Bw50, SubcarrierSpacing::Scs60) => 65,
        (Bandwidth::Bw50, SubcarrierSpacing::Scs120) => 31,
        (Bandwidth::Bw60, SubcarrierSpacing::Scs30) => 162,
        (Bandwidth::Bw60, SubcarrierSpacing::Scs60) => 79,
        (Bandwidth::Bw60, SubcarrierSpacing::Scs120) => 38,
        (Bandwidth::Bw80, SubcarrierSpacing::Scs30) => 217,
        (Bandwidth::Bw80, SubcarrierSpacing::Scs60) => 107,
        (Bandwidth::Bw80, SubcarrierSpacing::Scs120) => 51,
        (Bandwidth::Bw100, SubcarrierSpacing::Scs30) => 273,
        (Bandwidth::Bw100, SubcarrierSpacing::Scs60) => 135,
        (Bandwidth::Bw100, SubcarrierSpacing::Scs120) => 65,
        _ => {
            return Err(LayerError::InvalidConfiguration(invalid_combination_message(bandwidth, scs)));
        },
    };
    Ok(n)
}

/// The FFT bin of a DC-relative subcarrier: DC at the middle bin, negative
/// frequencies wrapped to the top of the FFT.
pub open spec fn fft_bin(fft_size: int, sc: int) -> int {
    if sc >= 0 {
        fft_size / 2 + sc
    } else {
        fft_size + sc
    }
}

/// The subcarrier falls on a bin of the FFT.
pub open spec fn bin_ok(fft_size: int, sc: int) -> bool {
    0 <= fft_bin(fft_size, sc) < fft_size
}

/// The bin of subcarrier `base + i`.
pub open spec fn fft_bin_at(fft_size: int, base: int, i: int) -> int {
    fft_bin(fft_size, base + i)
}

/// Subcarrier `base + i` falls on a bin of the FFT.
pub open spec fn bin_ok_at(fft_size: int, base: int, i: int) -> bool {
    bin_ok(fft_size, base + i)
}

/// Subcarrier (within the SSB) of the `j`-th PBCH data symbol on the first
/// and last PBCH symbol: every subcarrier but those of the DMRS comb
/// (0, 4, 8, ...).
pub open spec fn pbch_data_pos(j: int) -> int {
    4 * (j / 3) + j % 3 + 1
}

/// Subcarrier (within the SSB) of the `j`-th PBCH symbol on the SSS
/// symbol: 48 at the bottom edge, then 48 at the top edge.
pub open spec fn pbch_edge_pos(j: int) -> int {
    if j < 48 {
        j
    } else {
        144 + j
    }
}

/// Subcarrier (within the SSB) of the `j`-th PBCH DMRS symbol: every
/// fourth subcarrier from `v = cell_id % 4` on the first and last PBCH symbol; on the SSS
/// symbol 12 at the bottom edge then 12 at the top edge.
pub open spec fn pbch_dmrs_pos(relative_symbol: u8, cell_id: u16, j: int) -> int {
    let v = (cell_id % 4) as int;
    if relative_symbol == 2 && j >= 12 {
        192 + v + 4 * (j - 12)
    } else {
        v + 4 * j
    }
}

/// Number of PBCH data symbols mapped on a relative SSB symbol (out of
/// the 432): 180 of the first 216 on symbol 1, 96 on symbol 2, 120 on
/// symbol 3.
pub open spec fn pbch_count(relative_symbol: u8) -> int {
    if relative_symbol == 1 {
        180
    } else if relative_symbol == 2 {
        96
    } else {
        120
    }
}

/// Index (into the 432 PBCH symbols) of the first symbol mapped on a
/// relative SSB symbol.
pub open spec fn pbch_offset(relative_symbol: u8) -> int {
    if relative_symbol == 1 {
        0
    } else if relative_symbol == 2 {
        216
    } else {
        312
    }
}

/// SSB subcarrier of the `j`-th PBCH data symbol of a relative SSB symbol.
pub open spec fn pbch_pos(relative_symbol: u8, j: int) -> int {
    if relative_symbol == 2 {
        pbch_edge_pos(j)
    } else {
        pbch_data_pos(j)
    }
}

/// Number of PBCH DMRS symbols on a relative SSB symbol.
pub open spec fn pbch_dmrs_count(relative_symbol: u8) -> int {
    if relative_symbol == 2 {
        24
    } else {
        60
    }
}

/// The 144 PBCH DMRS QPSK symbols as 288 sequence bits, for L_max = 4:
/// the half frame is `(frame / 5) % 2`.
pub open spec fn pbch_dmrs_bit_seq(cell_id: u16, ssb_idx: u8, frame_number: u32) -> Seq<u8> {
    let n_hf = ((frame_number / 5) % 2) as u8;
    let c = pbch_dmrs_cinit(cell_id, ssb_idx, n_hf, 4);
    Seq::new(288, |n: int| gold_bit_at(dmrs_initial_state(c as u32), n as nat))
}

/// The cells after `writes` (pairs of a cell index and a value) are
/// applied in order to `cells`; a later write to a cell wins.
pub open spec fn apply_writes<T>(cells: Seq<T>, writes: Seq<(int, T)>) -> Seq<T>
    decreases writes.len(),
{
    if writes.len() == 0 {
        cells
    } else {
        apply_writes(cells, writes.drop_last()).update(writes.last().0, writes.last().1)
    }
}

/// Writes of `values` onto the consecutive DC-relative subcarriers
/// `start, start + 1, ..` of one symbol, in order.
pub open spec fn run_writes<T>(fft: int, start: int, symbol: int, values: Seq<T>) -> Seq<(int, T)> {
    Seq::new(values.len(), |i: int| (symbol * fft + fft_bin_at(fft, start, i), values[i]))
}

/// A run of writes stopped at element `m`, the first whose subcarrier
/// falls outside the FFT; the writes before it were made.
pub open spec fn run_stopped_at<T>(
    before: Seq<T>,
    after: Seq<T>,
    fft: int,
    start: int,
    symbol: int,
    values: Seq<T>,
    m: int,
) -> bool {
    &&& 0 <= m < values.len()
    &&& !bin_ok_at(fft, start, m)
    &&& forall|j: int| 0 <= j < m ==> #[trigger] bin_ok_at(fft, start, j)
    &&& after == apply_writes(before, run_writes(fft, start, symbol, values).take(m))
}

/// Writes of the PBCH symbols of one SSB symbol (see `pbch_pos`).
pub open spec fn pbch_writes<T>(fft: int, k_ssb: int, relative_symbol: u8, symbol: int, pbch: Seq<T>) -> Seq<
    (int, T),
> {
    Seq::new(
        pbch_count(relative_symbol) as nat,
        |j: int|
            (
                symbol * fft + fft_bin(fft, k_ssb + pbch_pos(relative_symbol, j)),
                pbch[pbch_offset(relative_symbol) + j],
            ),
    )
}

/// The constellation point of two DMRS bits: index `2 * b0 + b1`.
pub open spec fn qpsk_point<T>(constellation: Seq<T>, b0: u8, b1: u8) -> T {
    constellation[2 * b0 + b1]
}

/// Writes of the PBCH DMRS of one SSB symbol (see `pbch_dmrs_pos`), each
/// the constellation point of two consecutive sequence bits.
pub open spec fn pbch_dmrs_writes<T>(
    fft: int,
    k_ssb: int,
    relative_symbol: u8,
    cell_id: u16,
    symbol: int,
    bits: Seq<u8>,
    constellation: Seq<T>,
) -> Seq<(int, T)> {
    Seq::new(
        pbch_dmrs_count(relative_symbol) as nat,
        |j: int|
            (
                symbol * fft + fft_bin(fft, k_ssb + pbch_dmrs_pos(relative_symbol, cell_id, j)),
                qpsk_point(constellation, bits[2 * j], bits[2 * j + 1]),
            ),
    )
}

/// Writing in order, one write at a time.
proof fn lemma_apply_writes_step<T>(cells: Seq<T>, writes: Seq<(int, T)>, i: int)
    requires
        0 <= i < writes.len(),
    ensures
        apply_writes(cells, writes.take(i + 1)) == apply_writes(cells, writes.take(i)).update(
            writes[i].0,
            writes[i].1,
        ),
{
    assert(writes.take(i + 1).drop_last() =~= writes.take(i));
}

/// Writes inside the cells keep their number.
proof fn lemma_apply_writes_len<T>(cells: Seq<T>, writes: Seq<(int, T)>)
    requires
        forall|i: int| 0 <= i < writes.len() ==> 0 <= #[trigger] writes[i].0 < cells.len(),
    ensures
        apply_writes(cells, writes).len() == cells.len(),
    decreases writes.len(),
{
    if writes.len() > 0 {
        lemma_apply_writes_len(cells, writes.drop_last());
    }
}

/// A cell that no write names keeps its value.
proof fn lemma_apply_writes_other<T>(cells: Seq<T>, writes: Seq<(int, T)>, k: int)
    requires
        0 <= k < cells.len(),
        forall|i: int| 0 <= i < writes.len() ==> 0 <= #[trigger] writes[i].0 < cells.len(),
        forall|i: int| 0 <= i < writes.len() ==> #[trigger] writes[i].0 != k,
    ensures
        apply_writes(cells, writes)[k] == cells[k],
    decreases writes.len(),
{
    if writes.len() > 0 {
        lemma_apply_writes_other(cells, writes.drop_last(), k);
        lemma_apply_writes_len(cells, writes.drop_last());
    }
}

/// Cell `symbol * fft + bin` of a symbol-major grid lies inside it, and
/// names one (bin, symbol) pair only.
proof fn lemma_cell_index(fft: int, symbols: int, bin: int, symbol: int)
    requires
        0 <= bin < fft,
        0 <= symbol < symbols,
    ensures
        0 <= symbol * fft + bin < symbols * fft,
        forall|b2: int, s2: int|
            0 <= b2 < fft && 0 <= s2 < symbols && #[trigger] (s2 * fft + b2) == symbol * fft + bin ==> b2 == bin
                && s2 == symbol,
{
    assert(0 <= symbol * fft + bin < symbols * fft) by (nonlinear_arith)
        requires
            0 <= bin < fft,
            0 <= symbol < symbols,
    ;
    assert forall|b2: int, s2: int|
        0 <= b2 < fft && 0 <= s2 < symbols && #[trigger] (s2 * fft + b2) == symbol * fft + bin implies b2 == bin
            && s2 == symbol by {
        assert(s2 == symbol) by (nonlinear_arith)
            requires
                0 <= b2 < fft,
                0 <= bin < fft,
                s2 * fft + b2 == symbol * fft + bin,
        ;
    }
}

/// Every bit of a Gold sequence is 0 or 1.
proof fn lemma_gold_bits()
    ensures
        forall|st: (u32, u32), n: nat| #[trigger] gold_bit_at(st, n) <= 1,
{
    assert forall|st: (u32, u32), n: nat| #[trigger] gold_bit_at(st, n) <= 1 by {
        let a = gold_advance(st, n);
        let x: u32 = a.0 ^ a.1;
        assert(x & 1u32 <= 1u32) by (bit_vector);
    }
}

/// The grid of one slot: a value for every FFT bin of every symbol, and
/// the layout of the used subcarriers on the bins.
pub struct ResourceGrid<T> {
    cells: Vec<T>,
    blank: T,
    fft_size: usize,
    num_rbs: u16,
    num_subcarriers: u16,
    symbols_per_slot: u8,
    dc_subcarrier: usize,
    guard_band: usize,
    cell_id: u16,
}

impl<T> View for ResourceGrid<T> {
    type V = Seq<T>;

    /// The values, symbol by symbol: bin `b` of symbol `s` at
    /// `s * fft_size + b`.
    closed spec fn view(&self) -> Seq<T> {
        self.cells@
    }
}

impl<T> ResourceGrid<T> {
    /// FFT size.
    pub closed spec fn spec_fft_size(&self) -> usize {
        self.fft_size
    }

    /// Number of resource blocks.
    pub closed spec fn spec_num_rbs(&self) -> u16 {
        self.num_rbs
    }

    /// Number of used subcarriers.
    pub closed spec fn spec_num_subcarriers(&self) -> u16 {
        self.num_subcarriers
    }

    /// Symbols per slot.
    pub closed spec fn spec_symbols_per_slot(&self) -> u8 {
        self.symbols_per_slot
    }

    /// Cell identity.
    pub closed spec fn spec_cell_id(&self) -> u16 {
        self.cell_id
    }

    /// The value a cleared cell holds.
    pub closed spec fn spec_blank(&self) -> T {
        self.blank
    }

    /// Where bin `bin` of symbol `symbol` is kept.
    pub open spec fn cell_index(&self, bin: int, symbol: int) -> int {
        symbol * self.spec_fft_size() + bin
    }

    /// The value in bin `bin` of symbol `symbol`.
    pub open spec fn cell(&self, bin: int, symbol: int) -> T {
        self@[self.cell_index(bin, symbol)]
    }

    /// The FFT bin of a used subcarrier counted from the bottom of the band.
    pub open spec fn re_bin(&self, subcarrier: int) -> int {
        fft_bin(self.spec_fft_size() as int, subcarrier - self.spec_num_subcarriers() / 2)
    }

    /// Whether a resource element lies in the grid.
    pub open spec fn re_in_grid(&self, subcarrier: u16, symbol: u8) -> bool {
        subcarrier < self.spec_num_subcarriers() && symbol < self.spec_symbols_per_slot()
    }

    /// The same layout and blank value.
    pub open spec fn same_layout(&self, other: Self) -> bool {
        &&& self.spec_fft_size() == other.spec_fft_size()
        &&& self.spec_num_rbs() == other.spec_num_rbs()
        &&& self.spec_num_subcarriers() == other.spec_num_subcarriers()
        &&& self.spec_symbols_per_slot() == other.spec_symbols_per_slot()
        &&& self.spec_cell_id() == other.spec_cell_id()
        &&& self.spec_blank() == other.spec_blank()
    }

    /// The used subcarriers fit in the FFT, the RBs fill them, DC sits at
    /// the middle bin, the guard bands share what is left, and there is a
    /// cell for every bin of every symbol.
    pub closed spec fn well_formed(&self) -> bool {
        &&& self.num_subcarriers == self.num_rbs * 12
        &&& self.num_rbs <= 273
        &&& self.num_subcarriers <= self.fft_size
        &&& self.fft_size < 0x8000_0000
        &&& self.dc_subcarrier == self.fft_size / 2
        &&& self.guard_band == (self.fft_size - self.num_subcarriers) / 2
        &&& self.cells@.len() == self.symbols_per_slot * self.fft_size
    }
}

impl<T: Copy + Default> ResourceGrid<T> {
    /// A grid for a bandwidth with cell identity 0, every cell holding the
    /// default value.
    pub fn new(fft_size: usize, symbols_per_slot: u8, bandwidth: Bandwidth, scs: SubcarrierSpacing) -> (r: Result<
        Self,
        LayerError,
    >)
        requires
            fft_size < 0x8000_0000,
            fft_size * symbols_per_slot <= usize::MAX,
            num_rbs_spec(bandwidth, scs) is Some ==> fft_size >= num_rbs_spec(bandwidth, scs)->0 * 12,
        ensures
            r is Ok <==> num_rbs_spec(bandwidth, scs) is Some,
            r is Err ==> r->Err_0 is InvalidConfiguration,
            r is Err ==> r->Err_0->InvalidConfiguration_0@ == invalid_combination_text(bandwidth, scs),
            r is Ok ==> ({
                let g = r->Ok_0;
                &&& g.well_formed()
                &&& g.spec_fft_size() == fft_size
                &&& g.spec_num_rbs() == num_rbs_spec(bandwidth, scs)->0
                &&& g.spec_num_subcarriers() == num_rbs_spec(bandwidth, scs)->0 * 12
                &&& g.spec_symbols_per_slot() == symbols_per_slot
                &&& g.spec_cell_id() == 0
                &&& g@ == Seq::new(g@.len(), |i: int| g.spec_blank())
            }),
    {
        Self::new_with_cell_id(fft_size, symbols_per_slot, bandwidth, scs, 0)
    }

    /// A grid for a bandwidth and cell: the RB count of the bandwidth, DC
    /// at the middle FFT bin, every cell holding the default value.
    pub fn new_with_cell_id(
        fft_size: usize,
        symbols_per_slot: u8,
        bandwidth: Bandwidth,
        scs: SubcarrierSpacing,
        cell_id: u16,
    ) -> (r: Result<Self, LayerError>)
        requires
            fft_size < 0x8000_0000,
            fft_size * symbols_per_slot <= usize::MAX,
            num_rbs_spec(bandwidth, scs) is Some ==> fft_size >= num_rbs_spec(bandwidth, scs)->0 * 12,
        ensures
            r is Ok <==> num_rbs_spec(bandwidth, scs) is Some,
            r is Err ==> r->Err_0 is InvalidConfiguration,
            r is Err ==> r->Err_0->InvalidConfiguration_0@ == invalid_combination_text(bandwidth, scs),
            r is Ok ==> ({
                let g = r->Ok_0;
                &&& g.well_formed()
                &&& g.spec_fft_size() == fft_size
                &&& g.spec_num_rbs() == num_rbs_spec(bandwidth, scs)->0
                &&& g.spec_num_subcarriers() == num_rbs_spec(bandwidth, scs)->0 * 12
                &&& g.spec_symbols_per_slot() == symbols_per_slot
                &&& g.spec_cell_id() == cell_id
                &&& g@ == Seq::new(g@.len(), |i: int| g.spec_blank())
            }),
    {
        let num_rbs = match calculate_num_rbs(bandwidth, scs) {
            Ok(n) => n,
            Err(e) => {
                return Err(e);
            },
        };
        let num_subcarriers = num_rbs * ResourceBlock::SUBCARRIERS_PER_RB;
        let dc_subcarrier = fft_size / 2;
        let guard_band = (fft_size - num_subcarriers as usize) / 2;
        let blank = T::default();
        let total = fft_size * symbols_per_slot as usize;
        let mut cells: Vec<T> = Vec::new();
        let mut i: usize = 0;
        while i < total
            invariant
                i <= total,
                cells@ == Seq::new(i as nat, |k: int| blank),
            decreases total - i,
        {
            cells.push(blank);
            i = i + 1;
            assert(cells@ =~= Seq::new(i as nat, |k: int| blank));
        }
        proof {
            assert(symbols_per_slot * fft_size == fft_size * symbols_per_slot) by (nonlinear_arith);
        }
        Ok(
            ResourceGrid {
                cells,
                blank,
                fft_size,
                num_rbs,
                num_subcarriers,
                symbols_per_slot,
                dc_subcarrier,
                guard_band,
                cell_id,
            },
        )
    }
}

impl<T: Copy> ResourceGrid<T> {
    /// FFT size.
    pub fn fft_size(&self) -> (n: usize)
        ensures
            n == self.spec_fft_size(),
    {
        self.fft_size
    }

    /// Number of resource blocks.
    pub fn num_rbs(&self) -> (n: u16)
        ensures
            n == self.spec_num_rbs(),
    {
        self.num_rbs
    }

    /// Number of used subcarriers.
    pub fn num_subcarriers(&self) -> (n: u16)
        ensures
            n == self.spec_num_subcarriers(),
    {
        self.num_subcarriers
    }

    /// Symbols per slot.
    pub fn symbols_per_slot(&self) -> (n: u8)
        ensures
            n == self.spec_symbols_per_slot(),
    {
        self.symbols_per_slot
    }

    /// Stores a value in one cell.
    fn put(&mut self, bin: usize, symbol: u8, value: T)
        requires
            old(self).well_formed(),
            bin < old(self).spec_fft_size(),
            symbol < old(self).spec_symbols_per_slot(),
        ensures
            final(self).well_formed(),
            final(self).same_layout(*old(self)),
            final(self)@ == old(self)@.update(old(self).cell_index(bin as int, symbol as int), value),
    {
        let total = self.cells.len();
        proof {
            lemma_cell_index(self.fft_size as int, self.symbols_per_slot as int, bin as int, symbol as int);
            assert(symbol * self.fft_size + bin < total);
        }
        let idx = symbol as usize * self.fft_size + bin;
        self.cells.set(idx, value);
    }

    /// Every cell back to the blank value.
    pub fn clear(&mut self)
        requires
            old(self).well_formed(),
        ensures
            final(self).well_formed(),
            final(self).same_layout(*old(self)),
            final(self)@ == Seq::new(old(self)@.len(), |k: int| old(self).spec_blank()),
    {
        let n = self.cells.len();
        let mut i: usize = 0;
        while i < n
            invariant
                self.well_formed(),
                self.same_layout(*old(self)),
                n == self@.len(),
                n == old(self)@.len(),
                i <= n,
                forall|k: int| 0 <= k < i ==> self@[k] == self.spec_blank(),
            decreases n - i,
        {
            let blank = self.blank;
            self.cells.set(i, blank);
            i = i + 1;
        }
        assert(self@ =~= Seq::new(old(self)@.len(), |k: int| old(self).spec_blank()));
    }

    /// The bins of one symbol back to the blank value; nothing changes for
    /// a symbol outside the slot.
    pub fn clear_symbol(&mut self, symbol: u8)
        requires
            old(self).well_formed(),
        ensures
            final(self).well_formed(),
            final(self).same_layout(*old(self)),
            final(self)@ == Seq::new(
                old(self)@.len(),
                |k: int|
                    if symbol < old(self).spec_symbols_per_slot() && old(self).cell_index(0, symbol as int) <= k
                        < old(self).cell_index(old(self).spec_fft_size() as int, symbol as int) {
                        old(self).spec_blank()
                    } else {
                        old(self)@[k]
                    },
            ),
    {
        if symbol >= self.symbols_per_slot {
            assert(self@ =~= Seq::new(
                old(self)@.len(),
                |k: int|
                    if symbol < old(self).spec_symbols_per_slot() && old(self).cell_index(0, symbol as int) <= k
                        < old(self).cell_index(old(self).spec_fft_size() as int, symbol as int) {
                        old(self).spec_blank()
                    } else {
                        old(self)@[k]
                    },
            ));
            return;
        }
        let fft = self.fft_size;
        let ghost start = symbol * fft;
        proof {
            assert((symbol + 1) * fft <= self.symbols_per_slot * fft) by (nonlinear_arith)
                requires
                    symbol < self.symbols_per_slot,
            ;
            assert((symbol + 1) * fft == symbol * fft + fft) by (nonlinear_arith);
        }
        let mut b: usize = 0;
        while b < fft
            invariant
                self.well_formed(),
                self.same_layout(*old(self)),
                fft == self.spec_fft_size(),
                symbol < self.spec_symbols_per_slot(),
                start == symbol * fft,
                start + fft <= self@.len(),
                self@.len() == old(self)@.len(),
                b <= fft,
                forall|k: int|
                    0 <= k < self@.len() ==> #[trigger] self@[k] == if start <= k < start + b {
                        old(self).spec_blank()
                    } else {
                        old(self)@[k]
                    },
            decreases fft - b,
        {
            let blank = self.blank;
            self.put(b, symbol, blank);
            b = b + 1;
        }
        assert(self@ =~= Seq::new(
            old(self)@.len(),
            |k: int|
                if symbol < old(self).spec_symbols_per_slot() && old(self).cell_index(0, symbol as int) <= k
                    < old(self).cell_index(old(self).spec_fft_size() as int, symbol as int) {
                    old(self).spec_blank()
                } else {
                    old(self)@[k]
                },
        ));
    }

    /// The FFT bin of a resource element given by its subcarrier (counted
    /// from the bottom of the band); an error for a subcarrier or symbol
    /// outside the grid.
    fn locate_re(&self, subcarrier: u16, symbol: u8) -> (r: Result<usize, LayerError>)
        requires
            self.well_formed(),
        ensures
            r is Ok <==> self.re_in_grid(subcarrier, symbol),
            r is Err ==> r->Err_0 is InvalidConfiguration,
            r is Err ==> r->Err_0->InvalidConfiguration_0@ == re_out_of_bounds_text(subcarrier as nat, symbol as nat),
            r is Ok ==> r->Ok_0 == self.re_bin(subcarrier as int) && r->Ok_0 < self.spec_fft_size(),
    {
        if subcarrier >= self.num_subcarriers || symbol >= self.symbols_per_slot {
            return Err(LayerError::InvalidConfiguration(re_out_of_bounds_message(subcarrier, symbol)));
        }
        let dc_offset = (self.num_subcarriers / 2) as i32;
        let dc_relative_sc = subcarrier as i32 - dc_offset;
        match self.subcarrier_to_fft_index(dc_relative_sc) {
            Some(i) => Ok(i),
            None => Err(LayerError::InvalidConfiguration("FFT index out of bounds".to_owned())),
        }
    }

    /// Stores a value in a resource element given by its subcarrier
    /// (counted from the bottom of the band) and symbol; an error, and no
    /// change, for an element outside the grid.
    pub fn map_re(&mut self, subcarrier: u16, symbol: u8, value: T) -> (r: Result<(), LayerError>)
        requires
            old(self).well_formed(),
        ensures
            final(self).well_formed(),
            final(self).same_layout(*old(self)),
            r is Ok <==> old(self).re_in_grid(subcarrier, symbol),
            r is Err ==> r->Err_0 is InvalidConfiguration && final(self)@ == old(self)@,
            r is Err ==> r->Err_0->InvalidConfiguration_0@ == re_out_of_bounds_text(subcarrier as nat, symbol as nat),
            r is Ok ==> final(self)@ == old(self)@.update(
                old(self).cell_index(old(self).re_bin(subcarrier as int), symbol as int),
                value,
            ),
    {
        match self.locate_re(subcarrier, symbol) {
            Ok(bin) => {
                self.put(bin, symbol, value);
                Ok(())
            },
            Err(e) => Err(e),
        }
    }

    /// The value of a resource element, if it lies in the grid.
    pub fn get_re(&self, subcarrier: u16, symbol: u8) -> (r: Option<T>)
        requires
            self.well_formed(),
        ensures
            r == if self.re_in_grid(subcarrier, symbol) {
                Some(self.cell(self.re_bin(subcarrier as int), symbol as int))
            } else {
                None::<T>
            },
    {
        match self.locate_re(subcarrier, symbol) {
            Ok(bin) => {
                let total = self.cells.len();
                proof {
                    lemma_cell_index(self.fft_size as int, self.symbols_per_slot as int, bin as int, symbol as int);
                    assert(symbol * self.fft_size + bin < total);
                }
                Some(self.cells[symbol as usize * self.fft_size + bin])
            },
            Err(_) => None,
        }
    }

    /// Stores twelve values in the subcarriers of one resource block, in
    /// order; an error, and no change, for an RB or symbol outside the grid.
    pub fn map_rb(&mut self, rb_index: u16, symbol: u8, values: &[T; 12]) -> (r: Result<(), LayerError>)
        requires
            old(self).well_formed(),
        ensures
            final(self).well_formed(),
            final(self).same_layout(*old(self)),
            r is Ok <==> (rb_index < old(self).spec_num_rbs() && symbol < old(self).spec_symbols_per_slot()),
            r is Err ==> r->Err_0 is InvalidConfiguration && final(self)@ == old(self)@,
            rb_index >= old(self).spec_num_rbs() ==> r is Err && r->Err_0->InvalidConfiguration_0@
                == rb_out_of_bounds_text(rb_index as nat),
            rb_index < old(self).spec_num_rbs() && symbol >= old(self).spec_symbols_per_slot() ==> r is Err
                && r->Err_0->InvalidConfiguration_0@ == re_out_of_bounds_text((rb_index * 12) as nat, symbol as nat),
            r is Ok ==> final(self)@ == apply_writes(
                old(self)@,
                Seq::new(
                    12,
                    |i: int|
                        (
                            old(self).cell_index(old(self).re_bin(rb_index * 12 + i), symbol as int),
                            values@[i],
                        ),
                ),
            ),
    {
        if rb_index >= self.num_rbs {
            return Err(LayerError::InvalidConfiguration(rb_out_of_bounds_message(rb_index)));
        }
        if symbol >= self.symbols_per_slot {
            return Err(LayerError::InvalidConfiguration(re_out_of_bounds_message(rb_index * 12, symbol)));
        }
        let ghost writes = Seq::new(
            12,
            |i: int| (old(self).cell_index(old(self).re_bin(rb_index * 12 + i), symbol as int), values@[i]),
        );
        let rb = ResourceBlock::new(rb_index);
        let mut i: u16 = 0;
        while i < 12
            invariant
                self.well_formed(),
                self.same_layout(*old(self)),
                rb_index < self.spec_num_rbs(),
                symbol < self.spec_symbols_per_slot(),
                rb.start_subcarrier == rb_index * 12,
                i <= 12,
                writes == Seq::new(
                    12,
                    |q: int| (old(self).cell_index(old(self).re_bin(rb_index * 12 + q), symbol as int), values@[q]),
                ),
                self@ == apply_writes(old(self)@, writes.take(i as int)),
            decreases 12 - i,
        {
            assert(rb_index * 12 + 11 < self.spec_num_subcarriers()) by {
                assert(rb_index * 12 + 11 < self.spec_num_rbs() * 12) by (nonlinear_arith)
                    requires
                        rb_index < self.spec_num_rbs(),
                ;
            }
            proof {
                lemma_apply_writes_step(old(self)@, writes, i as int);
            }
            match self.locate_re(rb.start_subcarrier + i, symbol) {
                Ok(b) => {
                    let v = values[i as usize];
                    self.put(b, symbol, v);
                },
                Err(e) => {
                    return Err(e);
                },
            }
            i = i + 1;
        }
        assert(writes.take(12) =~= writes);
        Ok(())
    }

    /// The values of one symbol's bins; for a symbol outside the slot, an
    /// FFT's worth of blank values.
    pub fn get_symbol(&self, symbol: u8) -> (r: Vec<T>)
        requires
            self.well_formed(),
        ensures
            r@ == if symbol < self.spec_symbols_per_slot() {
                self@.subrange(self.cell_index(0, symbol as int), self.cell_index(self.spec_fft_size() as int, symbol as int))
            } else {
                Seq::new(self.spec_fft_size() as nat, |k: int| self.spec_blank())
            },
    {
        let fft = self.fft_size;
        let mut out: Vec<T> = Vec::new();
        if symbol >= self.symbols_per_slot {
            let mut b: usize = 0;
            while b < fft
                invariant
                    b <= fft,
                    out@ == Seq::new(b as nat, |k: int| self.spec_blank()),
                decreases fft - b,
            {
                out.push(self.blank);
                b = b + 1;
                assert(out@ =~= Seq::new(b as nat, |k: int| self.spec_blank()));
            }
            return out;
        }
        let total = self.cells.len();
        proof {
            assert((symbol + 1) * fft <= self.symbols_per_slot * fft) by (nonlinear_arith)
                requires
                    symbol < self.symbols_per_slot,
            ;
            assert((symbol + 1) * fft == symbol * fft + fft) by (nonlinear_arith);
            assert(symbol * fft + fft <= total);
        }
        let start = symbol as usize * fft;
        let mut b: usize = 0;
        while b < fft
            invariant
                self.well_formed(),
                fft == self.spec_fft_size(),
                start == symbol * fft,
                start + fft <= total,
                total == self@.len(),
                b <= fft,
                out@ == self@.subrange(start as int, start + b),
            decreases fft - b,
        {
            out.push(self.cells[start + b]);
            b = b + 1;
            assert(out@ =~= self@.subrange(start as int, start + b));
        }
        out
    }

    /// Replaces the values of one symbol's bins; an error, and no change,
    /// for a symbol outside the slot or data that is not one FFT long.
    pub fn set_symbol(&mut self, symbol: u8, data: &[T]) -> (r: Result<(), LayerError>)
        requires
            old(self).well_formed(),
        ensures
            final(self).well_formed(),
            final(self).same_layout(*old(self)),
            r is Ok <==> (symbol < old(self).spec_symbols_per_slot() && data@.len() == old(self).spec_fft_size()),
            r is Err ==> r->Err_0 is InvalidConfiguration && final(self)@ == old(self)@,
            symbol >= old(self).spec_symbols_per_slot() ==> r is Err && r->Err_0->InvalidConfiguration_0@
                == symbol_out_of_bounds_text(symbol as nat),
            symbol < old(self).spec_symbols_per_slot() && data@.len() != old(self).spec_fft_size() ==> r is Err
                && r->Err_0->InvalidConfiguration_0@ == data_length_text(data@.len(), old(self).spec_fft_size() as nat),
            r is Ok ==> final(self)@ == Seq::new(
                old(self)@.len(),
                |k: int|
                    if old(self).cell_index(0, symbol as int) <= k < old(self).cell_index(
                        old(self).spec_fft_size() as int,
                        symbol as int,
                    ) {
                        data@[k - old(self).cell_index(0, symbol as int)]
                    } else {
                        old(self)@[k]
                    },
            ),
    {
        if symbol >= self.symbols_per_slot {
            return Err(LayerError::InvalidConfiguration(symbol_out_of_bounds_message(symbol)));
        }
        if data.len() != self.fft_size {
            return Err(LayerError::InvalidConfiguration(data_length_message(data.len(), self.fft_size)));
        }
        let fft = self.fft_size;
        let ghost start = symbol * fft;
        proof {
            assert((symbol + 1) * fft <= self.symbols_per_slot * fft) by (nonlinear_arith)
                requires
                    symbol < self.symbols_per_slot,
            ;
            assert((symbol + 1) * fft == symbol * fft + fft) by (nonlinear_arith);
        }
        let mut b: usize = 0;
        while b < fft
            invariant
                self.well_formed(),
                self.same_layout(*old(self)),
                fft == self.spec_fft_size(),
                data@.len() == fft,
                symbol < self.spec_symbols_per_slot(),
                start == symbol * fft,
                start + fft <= self@.len(),
                self@.len() == old(self)@.len(),
                b <= fft,
                forall|k: int|
                    0 <= k < self@.len() ==> #[trigger] self@[k] == if start <= k < start + b {
                        data@[k - start]
                    } else {
                        old(self)@[k]
                    },
            decreases fft - b,
        {
            let v = data[b];
            self.put(b, symbol, v);
            b = b + 1;
        }
        assert(self@ =~= Seq::new(
            old(self)@.len(),
            |k: int|
                if old(self).cell_index(0, symbol as int) <= k < old(self).cell_index(
                    old(self).spec_fft_size() as int,
                    symbol as int,
                ) {
                    data@[k - old(self).cell_index(0, symbol as int)]
                } else {
                    old(self)@[k]
                },
        ));
        Ok(())
    }

    /// Whether an SSB placed at `k_ssb` fits the FFT: its 240 subcarriers all
    /// fall on FFT bins (and its subcarrier numbers stay in range). When it
    /// does, the SSS, PBCH and PBCH DMRS of the SSB can be mapped.
    pub fn ssb_fits(&self, k_ssb: i16) -> (r: bool)
        requires
            self.well_formed(),
        ensures
            r == (k_ssb + 240 <= i16::MAX && forall|c: int|
                0 <= c < 240 ==> #[trigger] bin_ok_at(self.spec_fft_size() as int, k_ssb as int, c)),
            r ==> forall|i: int| 0 <= i < 127 ==> #[trigger] bin_ok_at(self.spec_fft_size() as int, k_ssb + 56, i),
            r ==> forall|rel: u8, j: int|
                1 <= rel <= 3 && 0 <= j < pbch_count(rel) ==> bin_ok(
                    self.spec_fft_size() as int,
                    k_ssb + #[trigger] pbch_pos(rel, j),
                ),
            r ==> forall|rel: u8, cell_id: u16, j: int|
                1 <= rel <= 3 && 0 <= j < pbch_dmrs_count(rel) ==> bin_ok(
                    self.spec_fft_size() as int,
                    k_ssb + #[trigger] pbch_dmrs_pos(rel, cell_id, j),
                ),
    {
        if k_ssb > i16::MAX - 240 {
            return false;
        }
        let mut c: i32 = 0;
        while c < 240
            invariant
                self.well_formed(),
                k_ssb + 240 <= i16::MAX,
                0 <= c <= 240,
                forall|q: int| 0 <= q < c ==> #[trigger] bin_ok_at(self.spec_fft_size() as int, k_ssb as int, q),
            decreases 240 - c,
        {
            if self.subcarrier_to_fft_index(k_ssb as i32 + c).is_none() {
                assert(!bin_ok_at(self.spec_fft_size() as int, k_ssb as int, c as int));
                return false;
            }
            c = c + 1;
        }
        let ghost fft = self.spec_fft_size() as int;
        assert forall|i: int| 0 <= i < 127 implies #[trigger] bin_ok_at(fft, k_ssb + 56, i) by {
            assert(bin_ok_at(fft, k_ssb as int, 56 + i));
        }
        assert forall|rel: u8, j: int| 1 <= rel <= 3 && 0 <= j < pbch_count(rel) implies bin_ok(
            fft,
            k_ssb + #[trigger] pbch_pos(rel, j),
        ) by {
            if rel != 2 {
                assert(0 <= 4 * (j / 3) + j % 3 + 1 < 240) by (nonlinear_arith)
                    requires
                        0 <= j < 180,
                ;
            }
            assert(bin_ok_at(fft, k_ssb as int, pbch_pos(rel, j)));
        }
        assert forall|rel: u8, cell_id: u16, j: int| 1 <= rel <= 3 && 0 <= j < pbch_dmrs_count(rel) implies bin_ok(
            fft,
            k_ssb + #[trigger] pbch_dmrs_pos(rel, cell_id, j),
        ) by {
            assert(bin_ok_at(fft, k_ssb as int, pbch_dmrs_pos(rel, cell_id, j)));
        }
        true
    }

    /// Writes `values` onto consecutive DC-relative subcarriers from
    /// `start` in one symbol, stopping with an error at the first that
    /// falls outside the FFT (what came before it stays written).
    fn write_run(&mut self, start: i32, symbol: u8, values: &[T]) -> (r: Result<(), LayerError>)
        requires
            old(self).well_formed(),
            -0x8000 <= start,
            start + values@.len() <= 0x8000,
            values@.len() > 0 && bin_ok_at(old(self).spec_fft_size() as int, start as int, 0) ==> symbol
                < old(self).spec_symbols_per_slot(),
        ensures
            final(self).well_formed(),
            final(self).same_layout(*old(self)),
            r is Ok <==> forall|i: int|
                0 <= i < values@.len() ==> #[trigger] bin_ok_at(old(self).spec_fft_size() as int, start as int, i),
            r is Err ==> r->Err_0 is InvalidConfiguration,
            r is Err ==> r->Err_0->InvalidConfiguration_0@ == fft_index_text(),
            r is Ok ==> final(self)@ == apply_writes(
                old(self)@,
                run_writes(old(self).spec_fft_size() as int, start as int, symbol as int, values@),
            ),
            r is Err ==> exists|m: int|
                #[trigger] run_stopped_at(
                    old(self)@,
                    final(self)@,
                    old(self).spec_fft_size() as int,
                    start as int,
                    symbol as int,
                    values@,
                    m,
                ),
    {
        let ghost fft = self.spec_fft_size() as int;
        let ghost writes = run_writes(fft, start as int, symbol as int, values@);
        let n = values.len();
        let mut i: usize = 0;
        while i < n
            invariant
                self.well_formed(),
                self.same_layout(*old(self)),
                fft == self.spec_fft_size(),
                n == values@.len(),
                -0x8000 <= start,
                start + n <= 0x8000,
                n > 0 && bin_ok_at(fft, start as int, 0) ==> symbol < self.spec_symbols_per_slot(),
                writes == run_writes(fft, start as int, symbol as int, values@),
                i <= n,
                forall|k: int| 0 <= k < i ==> #[trigger] bin_ok_at(fft, start as int, k),
                self@ == apply_writes(old(self)@, writes.take(i as int)),
            decreases n - i,
        {
            match self.subcarrier_to_fft_index(start + i as i32) {
                Some(b) => {
                    assert(bin_ok_at(fft, start as int, i as int));
                    assert(bin_ok_at(fft, start as int, 0));
                    proof {
                        lemma_apply_writes_step(old(self)@, writes, i as int);
                    }
                    let v = values[i];
                    self.put(b, symbol, v);
                },
                None => {
                    assert(run_stopped_at(old(self)@, self@, fft, start as int, symbol as int, values@, i as int));
                    return Err(LayerError::InvalidConfiguration("FFT index out of bounds".to_owned()));
                },
            }
            i = i + 1;
        }
        assert(writes.take(n as int) =~= writes);
        Ok(())
    }

    /// Writes the 127 PSS values into a symbol from subcarrier `k_ssb + 56`
    /// of the SSB on; an error for a sequence that is not 127 long (no
    /// change) or at the first sample that falls outside the FFT (what came
    /// before it stays written).
    pub fn map_pss(&mut self, symbol: u8, pss_sequence: &[T], k_ssb: i16) -> (r: Result<(), LayerError>)
        requires
            old(self).well_formed(),
            pss_sequence@.len() == 127 ==> k_ssb + 182 <= i16::MAX,
            pss_sequence@.len() == 127 && bin_ok_at(old(self).spec_fft_size() as int, k_ssb + 56, 0) ==> symbol
                < old(self).spec_symbols_per_slot(),
        ensures
            final(self).well_formed(),
            final(self).same_layout(*old(self)),
            r is Ok <==> (pss_sequence@.len() == 127 && forall|i: int|
                0 <= i < 127 ==> #[trigger] bin_ok_at(old(self).spec_fft_size() as int, k_ssb + 56, i)),
            r is Err ==> r->Err_0 is InvalidConfiguration,
            pss_sequence@.len() != 127 ==> r is Err && r->Err_0->InvalidConfiguration_0@ == sync_length_text(
                "PSS"@,
                pss_sequence@.len(),
            ),
            pss_sequence@.len() == 127 && r is Err ==> r->Err_0->InvalidConfiguration_0@ == fft_index_text(),
            pss_sequence@.len() != 127 ==> final(self)@ == old(self)@,
            r is Ok ==> final(self)@ == apply_writes(
                old(self)@,
                run_writes(old(self).spec_fft_size() as int, k_ssb + 56, symbol as int, pss_sequence@),
            ),
            r is Err && pss_sequence@.len() == 127 ==> exists|m: int|
                #[trigger] run_stopped_at(
                    old(self)@,
                    final(self)@,
                    old(self).spec_fft_size() as int,
                    k_ssb + 56,
                    symbol as int,
                    pss_sequence@,
                    m,
                ),
    {
        if pss_sequence.len() != 127 {
            return Err(LayerError::InvalidConfiguration(sync_length_message("PSS", pss_sequence.len())));
        }
        self.write_run(k_ssb as i32 + 56, symbol, pss_sequence)
    }

    /// Writes the 127 SSS values into a symbol, placed as the PSS; an error,
    /// and no change, for a sequence that is not 127 long.
    pub fn map_sss(&mut self, symbol: u8, sss_sequence: &[T], k_ssb: i16) -> (r: Result<(), LayerError>)
        requires
            old(self).well_formed(),
            sss_sequence@.len() == 127 ==> k_ssb + 182 <= i16::MAX,
            sss_sequence@.len() == 127 ==> forall|i: int|
                0 <= i < 127 ==> #[trigger] bin_ok_at(old(self).spec_fft_size() as int, k_ssb + 56, i),
            sss_sequence@.len() == 127 ==> symbol < old(self).spec_symbols_per_slot(),
        ensures
            final(self).well_formed(),
            final(self).same_layout(*old(self)),
            r is Ok <==> sss_sequence@.len() == 127,
            r is Err ==> r->Err_0 is InvalidConfiguration && final(self)@ == old(self)@,
            r is Err ==> r->Err_0->InvalidConfiguration_0@ == sync_length_text("SSS"@, sss_sequence@.len()),
            r is Ok ==> final(self)@ == apply_writes(
                old(self)@,
                run_writes(old(self).spec_fft_size() as int, k_ssb + 56, symbol as int, sss_sequence@),
            ),
    {
        if sss_sequence.len() != 127 {
            return Err(LayerError::InvalidConfiguration(sync_length_message("SSS", sss_sequence.len())));
        }
        self.write_run(k_ssb as i32 + 56, symbol, sss_sequence)
    }

    /// Writes the PBCH symbols of one SSB symbol into grid symbol
    /// `actual_symbol`: relative symbol 1 takes PBCH symbols 0.. on the
    /// non-DMRS subcarriers (180 of them), symbol 2 takes 216..311 on the two
    /// 48-subcarrier edges, symbol 3 takes 312..431 on the first 120
    /// non-DMRS subcarriers. An error, and no change, for a PBCH that is not
    /// 432 symbols long or another relative symbol.
    pub fn map_pbch(&mut self, relative_symbol: u8, actual_symbol: u8, pbch_symbols: &[T], k_ssb: i16) -> (r:
        Result<(), LayerError>)
        requires
            old(self).well_formed(),
            pbch_symbols@.len() == 432 && 1 <= relative_symbol <= 3 ==> k_ssb + 240 <= i16::MAX,
            pbch_symbols@.len() == 432 && 1 <= relative_symbol <= 3 ==> forall|j: int|
                0 <= j < pbch_count(relative_symbol) ==> bin_ok(
                    old(self).spec_fft_size() as int,
                    k_ssb + pbch_pos(relative_symbol, j),
                ),
            pbch_symbols@.len() == 432 && 1 <= relative_symbol <= 3 ==> actual_symbol
                < old(self).spec_symbols_per_slot(),
        ensures
            final(self).well_formed(),
            final(self).same_layout(*old(self)),
            r is Ok <==> (pbch_symbols@.len() == 432 && 1 <= relative_symbol <= 3),
            r is Err ==> r->Err_0 is InvalidConfiguration && final(self)@ == old(self)@,
            pbch_symbols@.len() != 432 ==> r is Err && r->Err_0->InvalidConfiguration_0@ == pbch_length_text(
                pbch_symbols@.len(),
            ),
            pbch_symbols@.len() == 432 && !(1 <= relative_symbol <= 3) ==> r is Err
                && r->Err_0->InvalidConfiguration_0@ == pbch_symbol_text(relative_symbol as nat),
            r is Ok ==> final(self)@ == apply_writes(
                old(self)@,
                pbch_writes(
                    old(self).spec_fft_size() as int,
                    k_ssb as int,
                    relative_symbol,
                    actual_symbol as int,
                    pbch_symbols@,
                ),
            ),
    {
        if pbch_symbols.len() != 432 {
            return Err(LayerError::InvalidConfiguration(pbch_length_message(pbch_symbols.len())));
        }
        if relative_symbol < 1 || relative_symbol > 3 {
            return Err(LayerError::InvalidConfiguration(pbch_symbol_message(relative_symbol)));
        }
        let count: i32 = if relative_symbol == 1 {
            180
        } else if relative_symbol == 2 {
            96
        } else {
            120
        };
        let offset: usize = if relative_symbol == 1 {
            0
        } else if relative_symbol == 2 {
            216
        } else {
            312
        };
        let ghost fft = self.spec_fft_size() as int;
        let ghost writes = pbch_writes(fft, k_ssb as int, relative_symbol, actual_symbol as int, pbch_symbols@);
        let mut j: i32 = 0;
        while j < count
            invariant
                self.well_formed(),
                self.same_layout(*old(self)),
                fft == self.spec_fft_size(),
                1 <= relative_symbol <= 3,
                actual_symbol < self.spec_symbols_per_slot(),
                pbch_symbols@.len() == 432,
                count == pbch_count(relative_symbol),
                offset == pbch_offset(relative_symbol),
                k_ssb + 240 <= i16::MAX,
                forall|q: int|
                    0 <= q < pbch_count(relative_symbol) ==> bin_ok(fft, k_ssb + pbch_pos(relative_symbol, q)),
                writes == pbch_writes(fft, k_ssb as int, relative_symbol, actual_symbol as int, pbch_symbols@),
                0 <= j <= count,
                self@ == apply_writes(old(self)@, writes.take(j as int)),
            decreases count - j,
        {
            let pos: i32 = if relative_symbol == 2 {
                if j < 48 {
                    j
                } else {
                    144 + j
                }
            } else {
                4 * (j / 3) + j % 3 + 1
            };
            assert(pos == pbch_pos(relative_symbol, j as int));
            assert(0 <= pos < 240);
            let b = match self.subcarrier_to_fft_index(k_ssb as i32 + pos) {
                Some(b) => b,
                None => {
                    assert(bin_ok(fft, k_ssb + pbch_pos(relative_symbol, j as int)));
                    return Err(LayerError::InvalidConfiguration("FFT index out of bounds".to_owned()));
                },
            };
            proof {
                lemma_apply_writes_step(old(self)@, writes, j as int);
            }
            let v = pbch_symbols[offset + j as usize];
            self.put(b, actual_symbol, v);
            j = j + 1;
        }
        assert(writes.take(count as int) =~= writes);
        Ok(())
    }

    /// Writes the PBCH DMRS of one SSB symbol into grid symbol
    /// `actual_symbol`, on the comb `v = cell_id % 4` (all 240 subcarriers
    /// on relative symbols 1 and 3, the two edges on symbol 2): DMRS symbol
    /// `j` is the constellation point of sequence bits `2j` and `2j + 1` of
    /// the SSB index and half frame (L_max = 4), the point of bits `b0, b1`
    /// being `constellation[2 * b0 + b1]`. An error, and no change, for
    /// another relative symbol.
    pub fn map_pbch_dmrs(
        &mut self,
        relative_symbol: u8,
        actual_symbol: u8,
        cell_id: u16,
        k_ssb: i16,
        ssb_idx: u8,
        frame_number: u32,
        constellation: &[T; 4],
    ) -> (r: Result<(), LayerError>)
        requires
            old(self).well_formed(),
            1 <= relative_symbol <= 3 ==> k_ssb + 240 <= i16::MAX,
            1 <= relative_symbol <= 3 ==> forall|j: int|
                0 <= j < pbch_dmrs_count(relative_symbol) ==> bin_ok(
                    old(self).spec_fft_size() as int,
                    k_ssb + pbch_dmrs_pos(relative_symbol, cell_id, j),
                ),
            1 <= relative_symbol <= 3 ==> actual_symbol < old(self).spec_symbols_per_slot(),
        ensures
            final(self).well_formed(),
            final(self).same_layout(*old(self)),
            r is Ok <==> 1 <= relative_symbol <= 3,
            r is Err ==> r->Err_0 is InvalidConfiguration && final(self)@ == old(self)@,
            r is Err ==> r->Err_0->InvalidConfiguration_0@ == pbch_dmrs_symbol_text(relative_symbol as nat),
            r is Ok ==> final(self)@ == apply_writes(
                old(self)@,
                pbch_dmrs_writes(
                    old(self).spec_fft_size() as int,
                    k_ssb as int,
                    relative_symbol,
                    cell_id,
                    actual_symbol as int,
                    pbch_dmrs_bit_seq(cell_id, ssb_idx, frame_number),
                    constellation@,
                ),
            ),
    {
        if relative_symbol < 1 || relative_symbol > 3 {
            return Err(LayerError::InvalidConfiguration(pbch_dmrs_symbol_message(relative_symbol)));
        }
        let v = (cell_id % 4) as i32;
        let bits = generate_pbch_dmrs(cell_id, ssb_idx, frame_number);
        let count: i32 = if relative_symbol == 2 {
            24
        } else {
            60
        };
        proof {
            lemma_gold_bits();
        }
        let ghost fft = self.spec_fft_size() as int;
        let ghost writes = pbch_dmrs_writes(
            fft,
            k_ssb as int,
            relative_symbol,
            cell_id,
            actual_symbol as int,
            bits@,
            constellation@,
        );
        let mut j: i32 = 0;
        while j < count
            invariant
                self.well_formed(),
                self.same_layout(*old(self)),
                fft == self.spec_fft_size(),
                1 <= relative_symbol <= 3,
                actual_symbol < self.spec_symbols_per_slot(),
                v == cell_id % 4,
                count == pbch_dmrs_count(relative_symbol),
                bits@ == pbch_dmrs_bit_seq(cell_id, ssb_idx, frame_number),
                bits@.len() == 288,
                forall|q: int| 0 <= q < 288 ==> #[trigger] bits@[q] <= 1,
                k_ssb + 240 <= i16::MAX,
                forall|q: int|
                    0 <= q < pbch_dmrs_count(relative_symbol) ==> bin_ok(
                        fft,
                        k_ssb + pbch_dmrs_pos(relative_symbol, cell_id, q),
                    ),
                writes == pbch_dmrs_writes(
                    fft,
                    k_ssb as int,
                    relative_symbol,
                    cell_id,
                    actual_symbol as int,
                    bits@,
                    constellation@,
                ),
                0 <= j <= count,
                self@ == apply_writes(old(self)@, writes.take(j as int)),
            decreases count - j,
        {
            let pos: i32 = if relative_symbol == 2 && j >= 12 {
                192 + v + 4 * (j - 12)
            } else {
                v + 4 * j
            };
            assert(pos == pbch_dmrs_pos(relative_symbol, cell_id, j as int));
            let b = match self.subcarrier_to_fft_index(k_ssb as i32 + pos) {
                Some(b) => b,
                None => {
                    assert(bin_ok(fft, k_ssb + pbch_dmrs_pos(relative_symbol, cell_id, j as int)));
                    return Err(LayerError::InvalidConfiguration("FFT index out of bounds".to_owned()));
                },
            };
            let i = (2 * j) as usize;
            let b0 = bits[i];
            let b1 = bits[i + 1];
            assert(b0 <= 1 && b1 <= 1);
            let point = constellation[(2 * b0 + b1) as usize];
            proof {
                lemma_apply_writes_step(old(self)@, writes, j as int);
            }
            self.put(b, actual_symbol, point);
            j = j + 1;
        }
        assert(writes.take(count as int) =~= writes);
        Ok(())
    }

    /// The FFT bin of a DC-relative subcarrier, if it falls on the FFT.
    fn subcarrier_to_fft_index(&self, subcarrier: i32) -> (r: Option<usize>)
        requires
            self.well_formed(),
            -0x8000 <= subcarrier < 0x8000,
        ensures
            r == (if bin_ok(self.spec_fft_size() as int, subcarrier as int) {
                Some(fft_bin(self.spec_fft_size() as int, subcarrier as int) as usize)
            } else {
                None::<usize>
            }),
    {
        let dc_idx = self.fft_size / 2;
        if subcarrier >= 0 {
            let idx = dc_idx + subcarrier as usize;
            if idx < self.fft_size {
                Some(idx)
            } else {
                None
            }
        } else {
            let neg = (-subcarrier) as usize;
            if neg <= self.fft_size {
                let idx = self.fft_size - neg;
                if idx < self.fft_size {
                    Some(idx)
                } else {
                    None
                }
            } else {
                None
            }
        }
    }
}

/// What `get_re` reads of a grid that `map_re` wrote: the element written
/// reads back as the value stored, and an element kept in another cell
/// (another symbol, or another FFT bin) reads as before.
pub proof fn lemma_read_after_write<T>(
    before: ResourceGrid<T>,
    after: ResourceGrid<T>,
    subcarrier: u16,
    symbol: u8,
    value: T,
    other_subcarrier: u16,
    other_symbol: u8,
)
    requires
        before.well_formed(),
        after.same_layout(before),
        before.re_in_grid(subcarrier, symbol),
        after@ == before@.update(before.cell_index(before.re_bin(subcarrier as int), symbol as int), value),
        before.re_in_grid(other_subcarrier, other_symbol),
        before.re_bin(other_subcarrier as int) != before.re_bin(subcarrier as int) || other_symbol != symbol,
    ensures
        after.cell(after.re_bin(subcarrier as int), symbol as int) == value,
        after.cell(after.re_bin(other_subcarrier as int), other_symbol as int) == before.cell(
            before.re_bin(other_subcarrier as int),
            other_symbol as int,
        ),
{
    let fft = before.spec_fft_size() as int;
    let n = before.spec_symbols_per_slot() as int;
    let b = before.re_bin(subcarrier as int);
    let b2 = before.re_bin(other_subcarrier as int);
    assert(0 <= b < fft && 0 <= b2 < fft);
    lemma_cell_index(fft, n, b, symbol as int);
    lemma_cell_index(fft, n, b2, other_symbol as int);
    assert(before@.len() == n * fft);
}

/// What `get_symbol` reads of a grid that `set_symbol` wrote: the symbol
/// written reads back as the data.
pub proof fn lemma_symbol_read_after_write<T>(before: ResourceGrid<T>, after: ResourceGrid<T>, symbol: u8, data: Seq<T>)
    requires
        before.well_formed(),
        after.same_layout(before),
        symbol < before.spec_symbols_per_slot(),
        data.len() == before.spec_fft_size(),
        after@ == Seq::new(
            before@.len(),
            |k: int|
                if before.cell_index(0, symbol as int) <= k < before.cell_index(
                    before.spec_fft_size() as int,
                    symbol as int,
                ) {
                    data[k - before.cell_index(0, symbol as int)]
                } else {
                    before@[k]
                },
        ),
    ensures
        after@.subrange(
            after.cell_index(0, symbol as int),
            after.cell_index(after.spec_fft_size() as int, symbol as int),
        ) == data,
{
    let fft = before.spec_fft_size() as int;
    assert(before@.len() == before.spec_symbols_per_slot() * fft);
    assert((symbol + 1) * fft <= before.spec_symbols_per_slot() * fft) by (nonlinear_arith)
        requires
            symbol < before.spec_symbols_per_slot(),
            0 <= fft,
    ;
    assert((symbol + 1) * fft == symbol * fft + fft) by (nonlinear_arith);
    assert(after@.subrange(symbol * fft, symbol * fft + fft) =~= data);
}

/// Writes that all fall in the bins of one symbol leave the bins of every
/// other symbol as they were.
proof fn lemma_symbol_writes_spare_others<T>(
    cells: Seq<T>,
    writes: Seq<(int, T)>,
    fft: int,
    symbols: int,
    symbol: int,
    other: int,
    bin: int,
)
    requires
        cells.len() == symbols * fft,
        0 <= symbol < symbols,
        0 <= other < symbols,
        other != symbol,
        0 <= bin < fft,
        forall|i: int| 0 <= i < writes.len() ==> symbol * fft <= #[trigger] writes[i].0 < symbol * fft + fft,
    ensures
        apply_writes(cells, writes)[other * fft + bin] == cells[other * fft + bin],
{
    lemma_cell_index(fft, symbols, bin, other);
    assert(symbol * fft + fft <= symbols * fft) by (nonlinear_arith)
        requires
            symbol < symbols,
            0 <= bin < fft,
    ;
    assert(0 <= symbol * fft) by (nonlinear_arith)
        requires
            0 <= symbol,
            0 <= bin < fft,
    ;
    if other < symbol {
        assert(other * fft + fft <= symbol * fft) by (nonlinear_arith)
            requires
                other < symbol,
                0 <= bin < fft,
        ;
    } else {
        assert(symbol * fft + fft <= other * fft) by (nonlinear_arith)
            requires
                symbol < other,
                0 <= bin < fft,
        ;
    }
    lemma_apply_writes_other(cells, writes, other * fft + bin);
}

/// Mapping the PSS or SSS, the PBCH or the PBCH DMRS into one symbol (as
/// `map_pss`, `map_sss`, `map_pbch` and `map_pbch_dmrs` do when they
/// succeed) leaves the bins of every other symbol as they were.
pub proof fn lemma_ssb_mapping_stays_in_symbol<T>(
    grid: ResourceGrid<T>,
    symbol: u8,
    other: u8,
    bin: int,
    k_ssb: i16,
    values: Seq<T>,
    relative_symbol: u8,
    cell_id: u16,
    bits: Seq<u8>,
    constellation: Seq<T>,
)
    requires
        grid.well_formed(),
        symbol < grid.spec_symbols_per_slot(),
        other < grid.spec_symbols_per_slot(),
        other != symbol,
        0 <= bin < grid.spec_fft_size(),
    ensures
        (forall|i: int| 0 <= i < values.len() ==> #[trigger] bin_ok_at(grid.spec_fft_size() as int, k_ssb + 56, i))
            ==> apply_writes(
            grid@,
            run_writes(grid.spec_fft_size() as int, k_ssb + 56, symbol as int, values),
        )[grid.cell_index(bin, other as int)] == grid.cell(bin, other as int),
        (forall|j: int|
            0 <= j < pbch_count(relative_symbol) ==> #[trigger] bin_ok(
                grid.spec_fft_size() as int,
                k_ssb + pbch_pos(relative_symbol, j),
            )) ==> apply_writes(
            grid@,
            pbch_writes(grid.spec_fft_size() as int, k_ssb as int, relative_symbol, symbol as int, values),
        )[grid.cell_index(bin, other as int)] == grid.cell(bin, other as int),
        (forall|j: int|
            0 <= j < pbch_dmrs_count(relative_symbol) ==> #[trigger] bin_ok(
                grid.spec_fft_size() as int,
                k_ssb + pbch_dmrs_pos(relative_symbol, cell_id, j),
            )) ==> apply_writes(
            grid@,
            pbch_dmrs_writes(
                grid.spec_fft_size() as int,
                k_ssb as int,
                relative_symbol,
                cell_id,
                symbol as int,
                bits,
                constellation,
            ),
        )[grid.cell_index(bin, other as int)] == grid.cell(bin, other as int),
{
    let fft = grid.spec_fft_size() as int;
    let n = grid.spec_symbols_per_slot() as int;
    let s = symbol as int;
    let o = other as int;
    if forall|i: int| 0 <= i < values.len() ==> #[trigger] bin_ok_at(fft, k_ssb + 56, i) {
        let w = run_writes(fft, k_ssb + 56, s, values);
        assert forall|i: int| 0 <= i < w.len() implies s * fft <= #[trigger] w[i].0 < s * fft + fft by {
            assert(bin_ok_at(fft, k_ssb + 56, i));
        }
        lemma_symbol_writes_spare_others(grid@, w, fft, n, s, o, bin);
    }
    if forall|j: int|
        0 <= j < pbch_count(relative_symbol) ==> #[trigger] bin_ok(fft, k_ssb + pbch_pos(relative_symbol, j)) {
        let w = pbch_writes(fft, k_ssb as int, relative_symbol, s, values);
        assert forall|i: int| 0 <= i < w.len() implies s * fft <= #[trigger] w[i].0 < s * fft + fft by {
            assert(bin_ok(fft, k_ssb + pbch_pos(relative_symbol, i)));
        }
        lemma_symbol_writes_spare_others(grid@, w, fft, n, s, o, bin);
    }
    if forall|j: int|
        0 <= j < pbch_dmrs_count(relative_symbol) ==> #[trigger] bin_ok(
            fft,
            k_ssb + pbch_dmrs_pos(relative_symbol, cell_id, j),
        ) {
        let w = pbch_dmrs_writes(fft, k_ssb as int, relative_symbol, cell_id, s, bits, constellation);
        assert forall|i: int| 0 <= i < w.len() implies s * fft <= #[trigger] w[i].0 < s * fft + fft by {
            assert(bin_ok(fft, k_ssb + pbch_dmrs_pos(relative_symbol, cell_id, i)));
        }
        lemma_symbol_writes_spare_others(grid@, w, fft, n, s, o, bin);
    }
}

/// The 288 PBCH DMRS sequence bits of a cell, SSB index and frame
/// (L_max = 4, half frame `(frame / 5) % 2`).
fn generate_pbch_dmrs(cell_id: u16, ssb_idx: u8, frame_number: u32) -> (bits: Vec<u8>)
    ensures
        bits@ == pbch_dmrs_bit_seq(cell_id, ssb_idx, frame_number),
{
    let n_hf = ((frame_number / 5) % 2) as u8;
    proof {
        let i_ssb = crate::layers::phy::dmrs::pbch_i_ssb(ssb_idx, n_hf, 4);
        assert(i_ssb <= 7) by (bit_vector)
            requires
                i_ssb == (ssb_idx & 3u8) as u32 + 4 * (n_hf as u32),
                n_hf <= 1,
        ;
        assert((i_ssb + 1) * (cell_id / 4 + 1) * 2048 <= 8 * 16384 * 2048) by (nonlinear_arith)
            requires
                i_ssb <= 7,
                cell_id / 4 + 1 <= 16384,
        ;
    }
    let c_init = calculate_pbch_dmrs_cinit(cell_id, ssb_idx, n_hf, 4);
    let mut generator = DmrsSequenceGenerator::new(c_init);
    let ghost s0 = generator.state();
    let mut bits: Vec<u8> = Vec::new();
    let mut n: usize = 0;
    while n < 288
        invariant
            n <= 288,
            s0 == dmrs_initial_state(c_init),
            c_init == pbch_dmrs_cinit(cell_id, ssb_idx, n_hf, 4),
            n_hf == ((frame_number / 5) % 2) as u8,
            generator.state() == gold_advance(s0, n as nat),
            bits@.len() == n,
            forall|k: int| 0 <= k < n ==> bits@[k] == gold_bit_at(s0, k as nat),
        decreases 288 - n,
    {
        let b = generator.next_bit();
        proof {
            lemma_gold_advance_add(s0, n as nat, 1);
        }
        bits.push(b);
        n = n + 1;
    }
    assert(bits@ =~= pbch_dmrs_bit_seq(cell_id, ssb_idx, frame_number));
    bits
}

} // verus!
