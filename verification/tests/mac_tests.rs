use albor::common::types::{Bandwidth, CellId, Rnti, SubcarrierSpacing};
use albor::layers::mac::scheduler::{Coreset0Config, MacScheduler};
use albor::layers::mac::sib1::{default_sib1_config, PlmnId, Sib1Generator};
use albor::layers::mac::{generate_rar, DetectedPreamble, MacConfig, MacState};
use albor::layers::LayerError;

#[test]
fn test_coreset0_config() {
    let config = Coreset0Config::from_index(1).unwrap();
    assert_eq!(config.num_rbs, 24);
    assert_eq!(config.num_symbols, 2);
    assert_eq!(config.rb_offset, 2);

    assert!(Coreset0Config::from_index(20).is_err());
}

#[test]
fn test_scheduler_ssb_timing() {
    let scheduler = MacScheduler::new(CellId(1), SubcarrierSpacing::Scs15, Bandwidth::Bw20, 6).unwrap();

    let schedule = scheduler.get_slot_schedule(0, 0);
    assert!(schedule.ssb_info.is_some());

    let schedule = scheduler.get_slot_schedule(1, 0);
    assert!(schedule.ssb_info.is_none());

    let schedule = scheduler.get_slot_schedule(2, 0);
    assert!(schedule.ssb_info.is_some());
}

#[test]
fn test_sib1_scheduling() {
    let scheduler = MacScheduler::new(CellId(1), SubcarrierSpacing::Scs15, Bandwidth::Bw20, 6).unwrap();

    let mut sib1_slots = Vec::new();
    for frame in 0..16 {
        for slot in 0..10 {
            let schedule = scheduler.get_slot_schedule(frame, slot);
            if schedule.sib1_info.is_some() {
                sib1_slots.push(frame * 10 + slot as u32);
            }
        }
    }

    let expected_slots: Vec<u32> = vec![0, 20, 40, 60, 80, 100, 120, 140];
    assert_eq!(sib1_slots, expected_slots, "SIB1 should be scheduled every 20ms within SI window");

    let monitoring_slots = scheduler.get_sib1_monitoring_slots();
    assert_eq!(monitoring_slots, expected_slots, "Type0-PDCCH monitoring slots should match Table 13-11");
}

#[test]
fn sib1_test_plmn_encoding() {
    let plmn = PlmnId::test_plmn();
    let encoded = plmn.encode();

    assert_eq!(encoded[0], 0x00);
    assert_eq!(encoded[1], 0xF1);
    assert_eq!(encoded[2], 0x10);
}

#[test]
fn test_sib1_generation() {
    let config = default_sib1_config(CellId(1));
    let generator = Sib1Generator::new(config);

    let sib1 = generator.generate_sib1().unwrap();
    assert!(sib1.len() >= 100);
}

#[test]
fn sib1_bytes_of_default_cell() {
    let generator = Sib1Generator::new(default_sib1_config(CellId(1)));
    let sib1 = generator.generate_sib1().unwrap();
    assert_eq!(sib1.len(), 100);
    assert_eq!(
        sib1[..29],
        [
            0x80, 1, 0x00, 0xF1, 0x10, 0, 0, 1, 0, 0, 0, 0x10, 0x00, 0x01, 0xBA, 0x00, 1, 0x00,
            0x03, 0, 0, 0x01, 0x80, 20, 0, 0, 0, 0, 0
        ]
    );
    assert!(sib1[29..].iter().all(|b| *b == 0));
}

#[test]
fn test_enhanced_mac_initialization() {
    let config = MacConfig {
        cell_id: CellId(1),
        scs: SubcarrierSpacing::Scs15,
        bandwidth: Bandwidth::Bw10,
        max_ues: 32,
        sib1_config: default_sib1_config(CellId(1)),
    };

    let mut mac = MacState::new(config).unwrap();
    assert!(mac.initialize().is_ok());

    let schedule = mac.get_slot_schedule(0, 0).unwrap();
    assert!(schedule.ssb_info.is_some());

    let sib1 = mac.get_sib1_payload().unwrap();
    assert!(sib1.len() >= 100);

    let rnti1 = mac.allocate_c_rnti();
    let rnti2 = mac.allocate_c_rnti();
    assert_ne!(rnti1.0, rnti2.0);
}

#[test]
fn mac_refuses_before_initialization() {
    let config = MacConfig {
        cell_id: CellId(2),
        scs: SubcarrierSpacing::Scs15,
        bandwidth: Bandwidth::Bw10,
        max_ues: 8,
        sib1_config: default_sib1_config(CellId(2)),
    };
    let mac = MacState::new(config).unwrap();
    assert!(matches!(mac.get_slot_schedule(0, 0), Err(LayerError::NotInitialized)));
    assert!(matches!(mac.get_sib1_payload(), Err(LayerError::NotInitialized)));
}

#[test]
fn rar_layout() {
    let rar = generate_rar(Rnti(0x4601), 0x123);
    assert_eq!(&rar[..], &[0x40, 0x12, 0x3F, 0xFF, 0xFF, 0x46, 0x01]);
}

#[test]
fn prach_detection_starts_random_access() {
    let config = MacConfig {
        cell_id: CellId(1),
        scs: SubcarrierSpacing::Scs15,
        bandwidth: Bandwidth::Bw10,
        max_ues: 32,
        sib1_config: default_sib1_config(CellId(1)),
    };
    let mut mac = MacState::new(config).unwrap();
    mac.initialize().unwrap();
    assert!(mac.msg3_rnti().is_none());
    let preambles = [DetectedPreamble { preamble_index: 5, timing_advance: 12 }];
    assert!(mac.report_prach_detection(1, 9, &preambles).is_ok());
    assert!(mac.msg3_rnti().is_some());
}

#[test]
fn scheduler_refuses_unknown_coreset() {
    assert!(matches!(
        MacScheduler::new(CellId(1), SubcarrierSpacing::Scs15, Bandwidth::Bw20, 40),
        Err(LayerError::InvalidConfiguration(_))
    ));
}

#[test]
fn unknown_coreset0_rows_are_refused_by_name() {
    match Coreset0Config::from_index(20) {
        Err(LayerError::InvalidConfiguration(m)) => assert_eq!(m, "Invalid CORESET#0 index: 20"),
        other => panic!("unexpected {:?}", other),
    }
    match MacScheduler::new(CellId(1), SubcarrierSpacing::Scs15, Bandwidth::Bw20, 15) {
        Err(LayerError::InvalidConfiguration(m)) => assert_eq!(m, "Invalid CORESET#0 index: 15"),
        _ => panic!("expected an error"),
    }
    assert!(MacScheduler::new(CellId(1), SubcarrierSpacing::Scs15, Bandwidth::Bw20, 14).is_ok());
}
