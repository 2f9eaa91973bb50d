use albor::common::types::{Bandwidth, CellId, Pci, SubcarrierSpacing};
use albor::layers::phy::downlink::PhyState;
use albor::layers::phy::dmrs::{
    calculate_pbch_dmrs_cinit, calculate_pdcch_dmrs_cinit, calculate_pdsch_dmrs_cinit,
    get_pdsch_dmrs_params, DmrsSequenceGenerator, DmrsType,
};
use albor::layers::phy::flexran_adapter;
use albor::layers::phy::frame_structure::{
    FrameStructure, SlotConfig, SsbCase, SsbFrequencyRange, SsbPattern,
};
use albor::layers::phy::ofdm::{calculate_cp_lengths, calculate_slot_timing};
use albor::layers::phy::pbch::{DmrsPosition, Mib, PbchProcessor};
use albor::layers::phy::polar::{PdcchPolarEncoder, PolarCode, PolarEncoder};
use albor::layers::phy::prach::{
    get_prach_config_fdd, PrachDetector, PrachFormat, RachConfigCommon,
};
use albor::layers::phy::pss_sss::{
    generate_pss_sequence, generate_sss_sequence, PssCorrelator, PssGenerator, SssCorrelator,
    SssGenerator, PSS_LENGTH,
    SSS_LENGTH,
};
use albor::layers::phy::resampler::Resampler;
use albor::layers::phy::resource_grid::{calculate_num_rbs, ResourceBlock, ResourceGrid};
use albor::layers::phy::{bandwidth_rbs, calculate_fft_size, CyclicPrefix};
use albor::layers::LayerError;
use num_complex::Complex32;
use std::time::Duration;

#[test]
fn test_pdcch_dmrs_cinit() {
    let slot = 0;
    let symbol = 0;
    let n_id = 0;
    let c_init = calculate_pdcch_dmrs_cinit(slot, symbol, n_id);
    assert_eq!(c_init & 0x7FFFFFFF, c_init);
}

#[test]
fn test_cp_length_calculation() {
    let lengths = flexran_adapter::calculate_cp_lengths(2048, CyclicPrefix::Normal);
    assert_eq!(lengths.len(), 14);
    assert_eq!(lengths[0], 160);
    assert_eq!(lengths[1], 144);
}

#[test]
fn test_slot_config() {
    let config = SlotConfig::from_scs(SubcarrierSpacing::Scs15, false);
    assert_eq!(config.slots_per_subframe, 1);
    assert_eq!(config.slots_per_frame, 10);
    assert_eq!(config.symbols_per_slot, 14);

    let config = SlotConfig::from_scs(SubcarrierSpacing::Scs30, false);
    assert_eq!(config.slots_per_subframe, 2);
    assert_eq!(config.slots_per_frame, 20);
}

#[test]
fn test_frame_structure() {
    let fs = FrameStructure::new(SubcarrierSpacing::Scs15, CyclicPrefix::Normal);

    assert_eq!(fs.slots_per_frame(), 10);
    assert_eq!(fs.symbols_per_slot(), 14);

    assert!(fs.is_sync_slot(0, 0));
    assert!(fs.is_sync_slot(0, 1));
    assert!(fs.is_sync_slot(0, 2));
    assert!(fs.is_sync_slot(0, 3));
    assert!(!fs.is_sync_slot(0, 4));
    assert!(!fs.is_sync_slot(0, 5));
    assert!(!fs.is_sync_slot(1, 0));

    assert!(fs.is_pss_symbol(0));
    assert!(fs.is_sss_symbol(2));
}

#[test]
fn test_ssb_pattern() {
    // 2.5 GHz lies in the up-to-3-GHz range, 3.5 GHz in the 3-6 GHz range.
    let pattern = SsbPattern::new(SsbFrequencyRange::UpTo3Ghz, SubcarrierSpacing::Scs15);
    assert_eq!(pattern.case, SsbCase::CaseA);
    assert_eq!(pattern.max_beams, 4);

    let pattern = SsbPattern::new(SsbFrequencyRange::UpTo6Ghz, SubcarrierSpacing::Scs30);
    assert_eq!(pattern.case, SsbCase::CaseB);
    assert_eq!(pattern.max_beams, 8);
}

#[test]
fn test_fft_size_calculation() {
    let fft = calculate_fft_size(&Bandwidth::Bw20, &SubcarrierSpacing::Scs15).unwrap();
    assert_eq!(fft, 2048);

    let fft = calculate_fft_size(&Bandwidth::Bw100, &SubcarrierSpacing::Scs30).unwrap();
    assert_eq!(fft, 4096);
}

#[test]
fn test_cp_lengths() {
    let lengths = calculate_cp_lengths(2048, CyclicPrefix::Normal);
    assert_eq!(lengths.len(), 14);
    assert_eq!(lengths[0], 160);
    assert_eq!(lengths[1], 144);

    let lengths_768 = calculate_cp_lengths(768, CyclicPrefix::Normal);
    assert_eq!(lengths_768.len(), 14);
    assert_eq!(lengths_768[0], 60);
    assert_eq!(lengths_768[1], 54);

    for i in 1..14 {
        assert_eq!(lengths_768[i], 54);
    }
}

#[test]
fn test_mib_encoding() {
    let mib = Mib {
        sfn: 42,
        subcarrier_spacing_common: SubcarrierSpacing::Scs15,
        ssb_subcarrier_offset: 5,
        dmrs_type_a_position: DmrsPosition::Pos3,
        pdcch_config_sib1: 0x55,
        cell_barred: false,
        intra_freq_reselection: true,
        spare: 0,
    };

    let bits = mib.encode();
    assert_eq!(bits.len(), 24);

    let decoded = Mib::decode(&bits).unwrap();
    assert_eq!(decoded.sfn, mib.sfn);
    assert_eq!(decoded.ssb_subcarrier_offset, mib.ssb_subcarrier_offset);
    assert_eq!(decoded.pdcch_config_sib1, mib.pdcch_config_sib1);
}

#[test]
fn test_prach_config_fdd() {
    let config = get_prach_config_fdd(0).unwrap();
    assert_eq!(config.format, PrachFormat::Format0);
    assert_eq!(config.x, 16);
    assert_eq!(config.y, vec![1]);
    assert_eq!(config.subframe_numbers, vec![9]);
}

#[test]
fn test_prach_occasion_detection() {
    let rach_config = RachConfigCommon::default();
    let detector = PrachDetector::new(CellId(1), rach_config).unwrap();

    assert!(detector.is_prach_occasion(1, 9));
    assert!(!detector.is_prach_occasion(0, 9));
    assert!(!detector.is_prach_occasion(1, 0));
}

#[test]
fn pbch_processor_encodes_864_bits() {
    let pci = Pci::new(123).unwrap();
    let processor = PbchProcessor::new(pci, CellId(1)).unwrap();
    let mib = processor.generate_mib(100);
    let encoded = processor.encode_pbch_bits(&mib, 100);
    assert_eq!(encoded.len(), 864);
    assert!(encoded.iter().all(|b| *b <= 1));
}

#[test]
fn generated_mib_carries_frame_msbs() {
    let processor = PbchProcessor::new(Pci::new(1).unwrap(), CellId(1)).unwrap();
    let mib = processor.generate_mib(0x3F5);
    assert_eq!(mib.sfn, 0x3F);
    assert_eq!(mib.pdcch_config_sib1, 0x60);
    assert!(!mib.cell_barred);
}

#[test]
fn mib_round_trip_all_fields() {
    let mib = Mib {
        sfn: 63,
        subcarrier_spacing_common: SubcarrierSpacing::Scs30,
        ssb_subcarrier_offset: 15,
        dmrs_type_a_position: DmrsPosition::Pos2,
        pdcch_config_sib1: 0xA7,
        cell_barred: true,
        intra_freq_reselection: false,
        spare: 1,
    };
    let decoded = Mib::decode(&mib.encode()).unwrap();
    assert_eq!(decoded, mib);
}

#[test]
fn mib_decode_refuses_wrong_length() {
    match Mib::decode(&[0u8; 23]) {
        Err(LayerError::InvalidConfiguration(_)) => {}
        _ => panic!("a 23-bit MIB must be refused"),
    }
}

#[test]
fn cinit_values() {
    assert_eq!(calculate_pdcch_dmrs_cinit(1, 2, 3), 0xEE0006);
    assert_eq!(calculate_pdsch_dmrs_cinit(0, 0, 1, false), 0x60002);
    assert_eq!(calculate_pdsch_dmrs_cinit(0, 0, 1, true), 0x60003);
    assert_eq!(calculate_pbch_dmrs_cinit(0, 0, 0, 4), 2048 + 64);
}

#[test]
fn dmrs_generator_skip_matches_reading() {
    let mut a = DmrsSequenceGenerator::new(100);
    let mut b = DmrsSequenceGenerator::new(100);
    a.skip(3);
    for _ in 0..6 {
        b.next_bit();
    }
    for _ in 0..16 {
        assert_eq!(a.next_bit(), b.next_bit());
    }
}

#[test]
fn pdsch_dmrs_ports() {
    let (positions, w) = get_pdsch_dmrs_params(DmrsType::Type1, 1);
    assert_eq!(positions, vec![0, 2, 4, 6, 8, 10]);
    assert_eq!(w.w_f, [1, -1]);
    assert_eq!(DmrsType::Type1.nof_dmrs_per_rb(), 6);
    assert_eq!(DmrsType::Type2.nof_dmrs_per_rb(), 4);
}

#[test]
fn fft_size_refusal_and_rb_table() {
    match calculate_fft_size(&Bandwidth::Bw5, &SubcarrierSpacing::Scs240) {
        Err(LayerError::InvalidConfiguration(_)) => {}
        other => panic!("unexpected {:?}", other),
    }
    assert_eq!(bandwidth_rbs(Bandwidth::Bw10, SubcarrierSpacing::Scs15).unwrap(), 52);
    assert_eq!(bandwidth_rbs(Bandwidth::Bw100, SubcarrierSpacing::Scs30).unwrap(), 273);
    assert!(matches!(
        bandwidth_rbs(Bandwidth::Bw60, SubcarrierSpacing::Scs15),
        Err(LayerError::InvalidConfiguration(_))
    ));
    assert!(matches!(
        bandwidth_rbs(Bandwidth::Bw80, SubcarrierSpacing::Scs120),
        Err(LayerError::InvalidConfiguration(_))
    ));
}

#[test]
fn extended_cp_and_half_slot_layout() {
    let ext = calculate_cp_lengths(2048, CyclicPrefix::Extended);
    assert_eq!(ext, vec![512; 12]);
    let half = flexran_adapter::calculate_cp_lengths(768, CyclicPrefix::Normal);
    assert_eq!(half[0], 60);
    assert_eq!(half[7], 60);
    assert_eq!(half[1], 54);
    assert_eq!(half[13], 54);
}

#[test]
fn slot_timing_accumulates_symbols() {
    let t = calculate_slot_timing(2048, CyclicPrefix::Normal);
    assert_eq!(t.len(), 14);
    assert_eq!(t[0].start_sample, 0);
    assert_eq!(t[0].duration, 2208);
    assert_eq!(t[1].start_sample, 2208);
    assert_eq!(t[1].cp_length, 144);
    assert_eq!(t[13].start_sample + t[13].duration, 30704);
}

#[test]
fn num_rbs_table() {
    assert_eq!(calculate_num_rbs(Bandwidth::Bw20, SubcarrierSpacing::Scs15).unwrap(), 106);
    assert_eq!(calculate_num_rbs(Bandwidth::Bw100, SubcarrierSpacing::Scs60).unwrap(), 135);
    assert!(matches!(
        calculate_num_rbs(Bandwidth::Bw5, SubcarrierSpacing::Scs60),
        Err(LayerError::InvalidConfiguration(_))
    ));
}

#[test]
fn test_resource_grid_creation() {
    let grid: ResourceGrid<Complex32> = ResourceGrid::new(
        2048,
        14,
        Bandwidth::Bw20,
        SubcarrierSpacing::Scs15,
    ).unwrap();

    assert_eq!(grid.num_rbs(), 106);
    assert_eq!(grid.num_subcarriers(), 106 * 12);
    assert_eq!(grid.fft_size(), 2048);
}

#[test]
fn test_resource_element_mapping() {
    let mut grid = ResourceGrid::new(
        2048,
        14,
        Bandwidth::Bw20,
        SubcarrierSpacing::Scs15,
    ).unwrap();

    let value = Complex32::new(1.0, 0.0);
    grid.map_re(0, 0, value).unwrap();

    let retrieved = grid.get_re(0, 0).unwrap();
    assert_eq!(retrieved, value);
}

#[test]
fn test_rb_mapping() {
    let mut grid = ResourceGrid::new(
        2048,
        14,
        Bandwidth::Bw20,
        SubcarrierSpacing::Scs15,
    ).unwrap();

    let values = [Complex32::new(1.0, 0.0); 12];
    grid.map_rb(0, 0, &values).unwrap();

    for i in 0..12 {
        let retrieved = grid.get_re(i, 0).unwrap();
        assert_eq!(retrieved, Complex32::new(1.0, 0.0));
    }
}

#[test]
fn resource_grid_positions() {
    let mut grid: ResourceGrid<i32> =
        ResourceGrid::new(2048, 14, Bandwidth::Bw20, SubcarrierSpacing::Scs15).unwrap();
    assert_eq!(grid.fft_size(), 2048);
    assert_eq!(grid.symbols_per_slot(), 14);
    assert_eq!(grid.get_symbol(0), vec![0; 2048]);
    // 106 RBs = 1272 subcarriers, DC offset 636.
    grid.map_re(636, 0, 7).unwrap();
    grid.map_re(0, 0, 5).unwrap();
    let sym0 = grid.get_symbol(0);
    assert_eq!(sym0[1024], 7);
    assert_eq!(sym0[2048 - 636], 5);
    assert_eq!(sym0.iter().filter(|v| **v != 0).count(), 2);
    assert!(grid.map_re(1272, 0, 1).is_err());
    assert!(grid.map_re(0, 14, 1).is_err());
    assert_eq!(grid.get_re(637, 3), Some(0));
    assert_eq!(grid.get_re(636, 0), Some(7));
    assert_eq!(grid.get_re(5000, 3), None);
    let rb: [i32; 12] = [1, 2, 3, 4, 5, 6, 7, 8, 9, 10, 11, 12];
    grid.map_rb(53, 2, &rb).unwrap();
    assert_eq!(grid.get_symbol(2)[1024..1036], rb);
    assert!(grid.map_rb(106, 0, &rb).is_err());
    assert!(grid.map_rb(0, 14, &rb).is_err());
    assert_eq!(ResourceBlock::new(3).start_subcarrier, 36);
}

#[test]
fn resource_grid_subcarriers_sharing_a_bin() {
    // Negative DC-relative subcarriers wrap from the top of the FFT while
    // positive ones start at its middle: with 1272 subcarriers on 2048
    // bins, subcarriers 0 and 1024 both land on bin 1412.
    let mut grid: ResourceGrid<i32> =
        ResourceGrid::new(2048, 14, Bandwidth::Bw20, SubcarrierSpacing::Scs15).unwrap();
    grid.map_re(0, 0, 1).unwrap();
    grid.map_re(1024, 0, 2).unwrap();
    assert_eq!(grid.get_re(0, 0), Some(2));
    assert_eq!(grid.get_symbol(0)[1412], 2);
    // Another symbol is untouched.
    assert_eq!(grid.get_re(0, 1), Some(0));
}

#[test]
fn resource_grid_symbol_access_and_clear() {
    let mut grid: ResourceGrid<i32> =
        ResourceGrid::new(2048, 14, Bandwidth::Bw20, SubcarrierSpacing::Scs15).unwrap();
    let data: Vec<i32> = (0..2048).collect();
    grid.set_symbol(3, &data).unwrap();
    assert_eq!(grid.get_symbol(3), data);
    assert_eq!(grid.get_symbol(4), vec![0; 2048]);
    assert!(grid.set_symbol(14, &data).is_err());
    assert!(grid.set_symbol(3, &data[..100]).is_err());
    assert_eq!(grid.get_symbol(20), vec![0; 2048]);
    grid.map_re(0, 5, 9).unwrap();
    grid.clear_symbol(3);
    assert_eq!(grid.get_symbol(3), vec![0; 2048]);
    assert_eq!(grid.get_re(0, 5), Some(9));
    grid.clear_symbol(14);
    assert_eq!(grid.get_re(0, 5), Some(9));
    grid.clear();
    assert_eq!(grid.get_re(0, 5), Some(0));
}

#[test]
fn ssb_mapping_positions() {
    let mut grid: ResourceGrid<i32> =
        ResourceGrid::new_with_cell_id(2048, 14, Bandwidth::Bw20, SubcarrierSpacing::Scs15, 1)
            .unwrap();
    let pss: Vec<i32> = (100..227).collect();
    grid.map_pss(0, &pss, -120).unwrap();
    let sym0 = grid.get_symbol(0);
    assert_eq!(sym0[2048 - 64], 100);
    assert_eq!(sym0[1024], 164);
    // Only symbol 0 was written.
    for other in 1..14u8 {
        assert_eq!(grid.get_symbol(other), vec![0; 2048]);
    }
    assert!(grid.map_pss(0, &pss[..126], 0).is_err());
    assert!(grid.map_pss(0, &pss, 1000).is_err());
    assert_eq!(grid.get_symbol(0), sym0);
    let sss: Vec<i32> = (300..427).collect();
    grid.map_sss(2, &sss, -120).unwrap();
    assert_eq!(grid.get_symbol(2)[2048 - 64], 300);
    assert!(grid.map_sss(2, &sss[..5], -120).is_err());

    let pbch: Vec<i32> = (1000..1432).collect();
    grid.map_pbch(1, 1, &pbch, -120).unwrap();
    let sym1 = grid.get_symbol(1);
    assert_eq!(sym1[2048 - 119], 1000);
    assert_eq!(sym1[2048 - 115], 1003);
    assert_eq!(sym1[2048 - 120], 0);
    grid.map_pbch(2, 2, &pbch, -120).unwrap();
    assert_eq!(grid.get_symbol(2)[1024 + 72], 1264);
    grid.map_pbch(3, 3, &pbch, -120).unwrap();
    assert_eq!(grid.get_symbol(3)[2048 - 119], 1312);
    assert!(grid.map_pbch(4, 3, &pbch, 0).is_err());
    assert!(grid.map_pbch(1, 1, &pbch[..431], 0).is_err());

    let constellation = [-1, -2, -3, -4];
    grid.map_pbch_dmrs(1, 5, 1, -120, 0, 0, &constellation).unwrap();
    let sym5 = grid.get_symbol(5);
    assert!(constellation.contains(&sym5[2048 - 119]));
    assert_eq!(sym5[2048 - 118], 0);
    assert_eq!(sym5.iter().filter(|v| **v != 0).count(), 60);
    grid.map_pbch_dmrs(2, 6, 1, -120, 0, 0, &constellation).unwrap();
    let sym6 = grid.get_symbol(6);
    assert!(constellation.contains(&sym6[1024 + 73]));
    assert_eq!(sym6.iter().filter(|v| **v != 0).count(), 24);
    assert!(grid.map_pbch_dmrs(0, 5, 1, 0, 0, 0, &constellation).is_err());
}

#[test]
fn resource_grid_refuses_unsupported_bandwidth() {
    assert!(matches!(
        ResourceGrid::<i32>::new(4096, 14, Bandwidth::Bw5, SubcarrierSpacing::Scs240),
        Err(LayerError::InvalidConfiguration(_))
    ));
}

#[test]
fn pss_and_sss_sequences() {
    let pss = generate_pss_sequence(0);
    assert_eq!(pss.len(), 127);
    assert_eq!(pss[..10], [1, -1, -1, 1, -1, -1, -1, -1, 1, 1]);
    assert_eq!(pss.iter().map(|v| *v as i32).sum::<i32>(), -1);
    assert_eq!(generate_pss_sequence(1)[..4], [1, 1, 1, -1]);
    let sss = generate_sss_sequence(45, 0);
    assert_eq!(sss[..5], [1, 1, -1, 1, 1]);
    assert_eq!(sss.iter().map(|v| *v as i32).sum::<i32>(), 15);
}

#[test]
fn sync_generators_follow_pci() {
    let pss_gen = PssGenerator::new(Pci::new(0).unwrap()).unwrap();
    assert_eq!(pss_gen.generate().len(), 127);
    assert_eq!(pss_gen.nid2(), 0);
    let sss_gen = SssGenerator::new(Pci::new(135).unwrap()).unwrap();
    assert_eq!(sss_gen.generate(0).len(), 127);
    assert_eq!(sss_gen.nid1(), 45);
    assert_eq!(sss_gen.generate(1), sss_gen.generate(0));
    let other = PssGenerator::new(Pci::new(5).unwrap()).unwrap();
    assert_eq!(other.nid2(), 2);
}

#[test]
fn prach_layout_and_roots() {
    let detector = PrachDetector::new(CellId(1), RachConfigCommon::default()).unwrap();
    // zero correlation zone 12 gives N_CS = 119: 7 shifts per root over 839.
    assert_eq!(detector.get_cyclic_shift(), 119);
    assert_eq!(detector.preamble_layout(839), (7, 10));
    assert_eq!(detector.shift_window_start(2), 238);
    let roots = detector.root_sequence_indices(839);
    assert_eq!(roots.len(), 64);
    assert_eq!(roots[0], 0);
    assert_eq!(roots[9], 9);
    assert!(get_prach_config_fdd(200).is_none());
    assert_eq!(PrachFormat::Format0.sequence_length(), 839);
    assert!(PrachFormat::Format0.is_long());
}

#[test]
fn downlink_symbol_plans_in_first_slot() {
    let fs = FrameStructure::new(SubcarrierSpacing::Scs15, CyclicPrefix::Normal);
    let pbch = PbchProcessor::new(Pci::new(1).unwrap(), CellId(1)).unwrap();
    let mut state = PhyState::new();
    let mut plans = Vec::new();
    for _ in 0..14 {
        let plan = state.plan_symbol(&fs, None, &pbch, 1, 2192, true);
        plans.push(plan);
        state.complete_symbol(2192, 14, 10);
    }
    assert!(plans[2].map_pss && !plans[2].map_sss);
    assert!(plans[4].map_sss && !plans[4].map_pss);
    assert!(plans[4].sss_even_frame);
    assert!(!plans[0].map_pss && plans[0].pbch.is_none());
    let first = plans[3].pbch.as_ref().unwrap();
    let second = plans[5].pbch.as_ref().unwrap();
    assert_eq!(first.ssb_index, 0);
    assert_eq!(first.relative_symbol, 1);
    assert_eq!(second.relative_symbol, 3);
    assert_eq!(first.bits.len(), 864);
    assert_eq!(first.bits, second.bits);
    assert!(plans[8].map_pss);
    assert_eq!(plans[9].pbch.as_ref().unwrap().ssb_index, 1);
    assert_eq!(plans[1].timestamp, 2192);
    assert!(plans.iter().all(|p| p.pdcch.is_none() && p.pdsch.is_none()));
}

#[test]
fn test_pss_generator() {
    let pci = Pci::new(0).unwrap();
    let pss_gen = PssGenerator::new(pci).unwrap();
    let pss = pss_gen.generate();

    assert_eq!(pss.len(), PSS_LENGTH);
    assert_eq!(pss_gen.nid2(), 0);
}

#[test]
fn test_sss_generator() {
    let pci = Pci::new(135).unwrap(); // NID1=45, NID2=0
    let sss_gen = SssGenerator::new(pci).unwrap();
    let sss = sss_gen.generate(0);

    assert_eq!(sss.len(), SSS_LENGTH);
    assert_eq!(sss_gen.nid1(), 45);
}

#[test]
fn correlators_hold_references_and_search_range() {
    let pss = PssCorrelator::new();
    for nid2 in 0..3u8 {
        assert_eq!(pss.reference(nid2).to_vec(), generate_pss_sequence(nid2));
    }
    assert_eq!(SssCorrelator::new().max_nid1(), 335);
}

#[test]
fn resampler_clock_output_size() {
    // 4:3 downsampling: 4 input samples give 3 output samples.
    let resampler = Resampler::new(3, 4);
    assert_eq!(resampler.get_output_size(4), 3);
    assert_eq!(resampler.get_output_size(8), 6);
    assert_eq!(resampler.get_output_size(1024), 768);
}

#[test]
fn resampler_clock_produces_promised_outputs() {
    let mut resampler = Resampler::new(3, 4);
    let promised = resampler.get_output_size(1024);
    let mut produced = 0;
    let mut per_input = Vec::new();
    for _ in 0..1024 {
        let phases = resampler.next_input();
        assert!(phases.iter().all(|p| *p == 0));
        per_input.push(phases.len());
        produced += phases.len();
    }
    assert_eq!(produced, promised);
    assert_eq!(produced, 768);
    assert_eq!(per_input[..4], [0, 1, 1, 1]);
    // Midway through a block the promise counts what is accumulated.
    let mut r = Resampler::new(3, 4);
    r.next_input();
    assert_eq!(r.get_output_size(3), 3);
    r.reset();
    assert_eq!(r.get_output_size(3), 2);
    assert_eq!(r.interp_factor(), 3);
    assert_eq!(r.decim_factor(), 4);
}

/// QPSK symbol of two sequence bits at an amplitude.
fn qpsk_symbol(c0: u8, c1: u8, amplitude: f32) -> Complex32 {
    Complex32::new(amplitude * (1.0 - 2.0 * c0 as f32), amplitude * (1.0 - 2.0 * c1 as f32))
}

#[test]
fn test_pbch_processor() {
    let pci = Pci::new(123).unwrap();
    let cell_id = CellId(1);
    let processor = PbchProcessor::new(pci, cell_id).unwrap();

    let mib = processor.generate_mib(100);
    let bits = processor.encode_pbch_bits(&mib, 100);
    let encoded: Vec<Complex32> =
        bits.chunks(2).map(|c| qpsk_symbol(c[0], c[1], std::f32::consts::FRAC_1_SQRT_2)).collect();

    assert_eq!(encoded.len(), 432); // 864 bits / 2 (QPSK)
}

#[test]
fn test_dmrs_sequence_generation() {
    let c_init = 100;
    let mut gen = DmrsSequenceGenerator::new(c_init);

    // Generate a few symbols and check they are QPSK
    for _ in 0..10 {
        let c0 = gen.next_bit();
        let c1 = gen.next_bit();
        let symbol = qpsk_symbol(c0, c1, 1.0 / std::f32::consts::SQRT_2);
        // QPSK symbols should have magnitude sqrt(0.5)
        let mag = (symbol.re * symbol.re + symbol.im * symbol.im).sqrt();
        assert!((mag - 1.0).abs() < 0.001);
    }
}

#[test]
fn refused_configurations_carry_their_messages() {
    match bandwidth_rbs(Bandwidth::Bw60, SubcarrierSpacing::Scs15) {
        Err(LayerError::InvalidConfiguration(m)) => assert_eq!(m, "60 MHz not supported with 15 kHz SCS"),
        other => panic!("unexpected {:?}", other),
    }
    match bandwidth_rbs(Bandwidth::Bw100, SubcarrierSpacing::Scs120) {
        Err(LayerError::InvalidConfiguration(m)) => assert_eq!(m, "Invalid SCS for 100 MHz"),
        other => panic!("unexpected {:?}", other),
    }
    let mut grid: ResourceGrid<i32> =
        ResourceGrid::new(2048, 14, Bandwidth::Bw20, SubcarrierSpacing::Scs15).unwrap();
    match grid.map_re(1272, 3, 1) {
        Err(LayerError::InvalidConfiguration(m)) => assert_eq!(m, "RE out of bounds: subcarrier=1272, symbol=3"),
        other => panic!("unexpected {:?}", other),
    }
    match grid.map_pss(0, &[1; 5], 0) {
        Err(LayerError::InvalidConfiguration(m)) => assert_eq!(m, "PSS sequence length must be 127, got 5"),
        other => panic!("unexpected {:?}", other),
    }
}

#[test]
fn slot_duration_is_one_millisecond_over_slots_per_subframe() {
    let fs = FrameStructure::new(SubcarrierSpacing::Scs240, CyclicPrefix::Normal);
    assert_eq!(fs.slot_duration(), Duration::from_nanos(62_500));
    let fs = FrameStructure::new(SubcarrierSpacing::Scs15, CyclicPrefix::Normal);
    assert_eq!(fs.slot_duration(), Duration::from_millis(1));
    let fs = FrameStructure::new(SubcarrierSpacing::Scs120, CyclicPrefix::Normal);
    assert_eq!(fs.slot_duration(), Duration::from_micros(125));
    assert_eq!(fs.symbol_duration(), Duration::from_micros(125 / 14));
}

#[test]
fn refused_sizes_and_grid_requests_carry_their_values() {
    match calculate_fft_size(&Bandwidth::Bw100, &SubcarrierSpacing::Scs15) {
        Err(LayerError::InvalidConfiguration(m)) => {
            assert_eq!(m, "Invalid FFT size 8192 for bandwidth Bw100 and SCS Scs15")
        }
        other => panic!("unexpected {:?}", other),
    }
    match ResourceGrid::<i32>::new(4096, 14, Bandwidth::Bw5, SubcarrierSpacing::Scs240) {
        Err(LayerError::InvalidConfiguration(m)) => {
            assert_eq!(m, "Invalid bandwidth Bw5 and SCS Scs240 combination")
        }
        _ => panic!("expected an error"),
    }
    let mut grid: ResourceGrid<i32> =
        ResourceGrid::new(2048, 14, Bandwidth::Bw20, SubcarrierSpacing::Scs15).unwrap();
    let rb = [0i32; 12];
    let data = vec![0i32; 10];
    let pbch = vec![0i32; 432];
    let expect = |r: Result<(), LayerError>, text: &str| match r {
        Err(LayerError::InvalidConfiguration(m)) => assert_eq!(m, text),
        other => panic!("unexpected {:?}", other),
    };
    expect(grid.map_rb(106, 0, &rb), "RB index 106 out of bounds");
    expect(grid.map_rb(5, 14, &rb), "RE out of bounds: subcarrier=60, symbol=14");
    expect(grid.map_sss(0, &[1; 3], 0), "SSS sequence length must be 127, got 3");
    expect(grid.map_pss(0, &[1; 127], 1000), "FFT index out of bounds");
    expect(grid.map_pbch(1, 1, &pbch[..400], 0), "PBCH symbols length must be 432, got 400");
    expect(grid.map_pbch(7, 1, &pbch, 0), "Invalid PBCH relative symbol position: 7");
    expect(grid.map_pbch_dmrs(0, 1, 1, 0, 0, 0, &[1, 2, 3, 4]), "Invalid PBCH DMRS relative symbol: 0");
    expect(grid.set_symbol(20, &data), "Symbol 20 out of bounds");
    expect(grid.set_symbol(2, &data), "Data length 10 doesn't match FFT size 2048");
}

#[test]
fn polar_transform_applied_twice_gives_back_the_input() {
    let u = [0u8, 0, 0, 1];
    let mut x = [0u8; 4];
    PolarEncoder::encode(&mut x, &u, 2);
    assert_eq!(x, [1, 1, 1, 1]);
    let mut y = [0u8; 4];
    PolarEncoder::encode(&mut y, &x, 2);
    assert_eq!(y, u);

    let v: Vec<u8> = (0..32u32).map(|i| ((i * 7 + 3) % 5 % 2) as u8).collect();
    let mut once = vec![0u8; 32];
    PolarEncoder::encode(&mut once, &v, 5);
    let mut twice = vec![0u8; 32];
    PolarEncoder::encode(&mut twice, &once, 5);
    assert_eq!(twice, v);
}

#[test]
fn information_sets_count_k_and_are_nested() {
    let small = PolarCode::new(20, 128, 9);
    let large = PolarCode::new(40, 128, 9);
    assert_eq!(small.get_n(), 64);
    assert_eq!(large.get_n(), 64);
    let a = small.get_frozen_bits();
    let b = large.get_frozen_bits();
    assert_eq!(a.len(), 64);
    assert_eq!(a.iter().filter(|x| **x).count(), 20);
    assert_eq!(b.iter().filter(|x| **x).count(), 40);
    for i in 0..64 {
        if a[i] {
            assert!(b[i]);
        }
    }
}

#[test]
fn dmrs_bits_ignore_bit_31_of_the_seed() {
    let mut a = DmrsSequenceGenerator::new(0x1234_5678);
    let mut b = DmrsSequenceGenerator::new(0x9234_5678);
    for _ in 0..200 {
        let x = a.next_bit();
        assert!(x <= 1);
        assert_eq!(x, b.next_bit());
    }
}

#[test]
fn pdcch_polar_encoding_is_linear() {
    let enc = PdcchPolarEncoder::new();
    let a: Vec<u8> = (0..64u32).map(|i| ((i * 5 + 1) % 3 % 2) as u8).collect();
    let b: Vec<u8> = (0..64u32).map(|i| ((i * 11 + 4) % 7 % 2) as u8).collect();
    let ab: Vec<u8> = a.iter().zip(b.iter()).map(|(x, y)| x ^ y).collect();
    for al in [1u8, 2, 4] {
        let ea = enc.encode(&a, al);
        let eb = enc.encode(&b, al);
        let eab = enc.encode(&ab, al);
        assert_eq!(ea.len(), al as usize * 144);
        let sum: Vec<u8> = ea.iter().zip(eb.iter()).map(|(x, y)| x ^ y).collect();
        assert_eq!(eab, sum);
        assert_eq!(enc.encode(&vec![0u8; 64], al), vec![0u8; al as usize * 144]);
    }
}
