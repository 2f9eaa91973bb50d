use albor::common::types::{Bandwidth, CellId, Rnti, SubcarrierSpacing};
use albor::gnb::setup::{bandwidth_from_mhz, frequency_from_arfcn_hz, plmn_bcd, scs_from_khz, ArfcnError};
use albor::gnb::config::{parse_plmn, PlmnError};
use albor::interfaces::flexran_sys::{version_info, FlexranError};
use albor::interfaces::message_types::{GnbMessage, MessageType, UeMessage};
use albor::interfaces::zmq_rf::{iq_sample_count, RfDriverState, RxState, TxCircularBuffer, TxPoll};
use albor::interfaces::InterfaceError;
use albor::layers::ngap::{NgapConfig, NgapLayer, NgapProcedureCode};
use albor::layers::pdcp::{PdcpConfig, PdcpLayer};
use albor::layers::rlc::{RlcConfig, RlcLayer, RlcMode};
use albor::layers::rrc::{EstablishmentCause, RrcConfig, RrcLayer, RrcMessageType, RrcSetupRequest, RrcState};
use albor::layers::LayerError;

fn rrc_config() -> RrcConfig {
    RrcConfig {
        sib_periodicity: 160,
        max_ue_contexts: 100,
        cell_id: CellId(1),
        plmn_id: [0x00, 0xF1, 0x10],
        tac: 7,
    }
}

#[test]
fn test_rrc_initialization() {
    let mut rrc = RrcLayer::new(rrc_config());
    assert!(rrc.initialize().is_ok());
}

#[test]
fn test_ue_context_creation() {
    let mut rrc = RrcLayer::new(rrc_config());
    rrc.initialize().unwrap();

    let request = RrcSetupRequest {
        ue_identity: vec![0x01, 0x02, 0x03, 0x04],
        establishment_cause: EstablishmentCause::MoData,
    };
    let rnti = Rnti::new(0x4601);
    assert!(rrc.handle_rrc_setup_request(rnti, request).is_ok());

    assert_eq!(rrc.num_ue_contexts(), 1);
    assert_eq!(rrc.ue_state(rnti.0), Some(RrcState::Connected));
}

#[test]
fn rrc_setup_message_bytes() {
    let rrc = RrcLayer::new(RrcConfig { cell_id: CellId(0x1234), ..rrc_config() });
    let setup = rrc.generate_rrc_setup(Rnti(1)).unwrap();
    assert_eq!(&setup[..], &[0x00, 0x00, 0x01, 0x00, 0x05, 0x10, 0x12, 0x34, 0x20, 0x00]);
}

#[test]
fn rrc_parsing() {
    let rrc = RrcLayer::new(rrc_config());
    assert_eq!(rrc.parse_message_type(&[0x40]), Some(RrcMessageType::RrcSetupRequest));
    assert_eq!(rrc.parse_message_type(&[0x02]), Some(RrcMessageType::RrcSetupComplete));
    assert_eq!(rrc.parse_message_type(&[0x21]), Some(RrcMessageType::RrcReconfigurationComplete));
    assert_eq!(rrc.parse_message_type(&[0x03]), None);
    assert_eq!(rrc.parse_message_type(&[]), None);

    let req = rrc.parse_rrc_setup_request(&[0x00, 0x02, 0xAA, 0xBB, 0x05]).unwrap();
    assert_eq!(req.ue_identity, vec![0xAA, 0xBB]);
    assert_eq!(req.establishment_cause, EstablishmentCause::MoVoiceCall);
    let req = rrc.parse_rrc_setup_request(&[0x00, 0x00, 0x09]).unwrap();
    assert_eq!(req.establishment_cause, EstablishmentCause::MoData);
    assert!(matches!(rrc.parse_rrc_setup_request(&[0x00, 0x01]), Err(LayerError::InvalidPdu)));
    assert!(matches!(rrc.parse_rrc_setup_request(&[0x00, 0x05, 0x01, 0x02]), Err(LayerError::InvalidPdu)));
}

#[test]
fn rrc_uplink_flow() {
    let mut rrc = RrcLayer::new(rrc_config());
    assert!(matches!(rrc.process_uplink(&[0x00, 0x00, 0x03]), Err(LayerError::NotInitialized)));
    rrc.initialize().unwrap();
    let reply = rrc.process_uplink(&[0x00, 0x01, 0x07, 0x03]).unwrap();
    assert!(reply.is_some());
    assert_eq!(rrc.ue_state(0x4601), Some(RrcState::Connected));
    assert_eq!(rrc.process_uplink(&[0x02]).unwrap().is_none(), true);
    assert_eq!(rrc.num_ue_contexts(), 1);
    rrc.shutdown().unwrap();
    assert_eq!(rrc.num_ue_contexts(), 0);
    assert!(matches!(
        rrc.handle_rrc_setup_complete(Rnti(0x4601), bytes::Bytes::new()),
        Err(LayerError::InvalidState(_))
    ));
}

#[test]
fn test_pdcp_initialization() {
    let config = PdcpConfig {
        sn_size: 12,
        discard_timer: 100,
        t_reordering: 35,
        integrity_protection: true,
        ciphering: true,
    };
    let mut pdcp = PdcpLayer::new(config);
    assert!(pdcp.initialize().is_ok());
}

#[test]
fn test_pdcp_invalid_sn_size() {
    let config = PdcpConfig {
        sn_size: 16,
        discard_timer: 100,
        t_reordering: 35,
        integrity_protection: true,
        ciphering: true,
    };
    let mut pdcp = PdcpLayer::new(config);
    assert!(pdcp.initialize().is_err());
}

#[test]
fn pdcp_gates_and_passes_data() {
    let config = PdcpConfig {
        sn_size: 18,
        discard_timer: 100,
        t_reordering: 35,
        integrity_protection: false,
        ciphering: false,
    };
    let mut pdcp = PdcpLayer::new(config);
    assert!(matches!(pdcp.process_uplink(bytes::Bytes::from_static(b"x")), Err(LayerError::NotInitialized)));
    pdcp.initialize().unwrap();
    let out = pdcp.process_downlink(bytes::Bytes::from_static(b"abc")).unwrap();
    assert_eq!(&out[..], b"abc");
    pdcp.shutdown().unwrap();
    assert!(pdcp.process_downlink(bytes::Bytes::new()).is_err());
}

#[test]
fn test_rlc_initialization() {
    let config = RlcConfig { mode: RlcMode::Am, sn_field_length: 12, poll_pdu: 16 };
    let mut rlc = RlcLayer::new(config);
    assert!(rlc.initialize().is_ok());
}

#[test]
fn rlc_passes_data_when_initialized() {
    let mut rlc = RlcLayer::new(RlcConfig { mode: RlcMode::Um, sn_field_length: 6, poll_pdu: 4 });
    assert!(matches!(rlc.process_uplink(bytes::Bytes::new()), Err(LayerError::NotInitialized)));
    rlc.initialize().unwrap();
    assert_eq!(&rlc.process_uplink(bytes::Bytes::from_static(b"pdu")).unwrap()[..], b"pdu");
}

fn ngap_config() -> NgapConfig {
    NgapConfig {
        amf_address: "127.0.0.1:38412".to_string(),
        local_address: "0.0.0.0:38412".to_string(),
        gnb_id: 0x19B,
        plmn_id: [0x02, 0xF8, 0x39],
    }
}

#[test]
fn test_ngap_initialization() {
    // Without an AMF the connection attempt fails, and so does initialization.
    let mut ngap = NgapLayer::new(ngap_config());
    let attempt = Err(LayerError::InitializationFailed("Failed to connect to AMF".to_string()));
    assert!(ngap.complete_initialization(attempt).is_err());
    assert!(matches!(ngap.process_downlink(bytes::Bytes::new()), Err(LayerError::NotInitialized)));
}

#[test]
fn ng_setup_request_encoding() {
    let ngap = NgapLayer::new(ngap_config());
    let msg = ngap.build_ng_setup_request().unwrap();
    assert_eq!(msg.len(), 51);
    assert_eq!(&msg[..4], &[0x00, 21, 0x00, 47]);
    assert_eq!(&msg[10..13], &[0x02, 0xF8, 0x39]);
    assert_eq!(&msg[15..18], &[0x00, 0x01, 0x9B]);
    assert_eq!(&msg[22..34], b"Albor-gNodeB");
    assert_eq!(&msg[46..], &[0x00, 0x15, 0x40, 0x01, 0x01]);
}

#[test]
fn ng_setup_answers_and_gates() {
    let mut ngap = NgapLayer::new(ngap_config());
    assert!(ngap.check_ng_setup_response(&[0x20, 21, 0, 0]).unwrap().is_ok());
    assert!(matches!(
        ngap.check_ng_setup_response(&[0x40, 21, 0, 0]),
        Some(Err(LayerError::ProcessingError(_)))
    ));
    assert!(ngap.check_ng_setup_response(&[0x20, 21, 0]).is_none());
    assert!(ngap.check_ng_setup_response(&[0x20, 15, 0, 0]).is_none());
    assert!(ngap.complete_initialization(Ok(())).is_ok());
    assert_eq!(&ngap.process_uplink(bytes::Bytes::from_static(b"nas")).unwrap()[..], b"nas");
    ngap.shutdown().unwrap();
    assert!(matches!(ngap.process_uplink(bytes::Bytes::new()), Err(LayerError::NotInitialized)));
    assert_eq!(NgapProcedureCode::NgSetup.code(), 21);
    assert_eq!(NgapProcedureCode::UplinkNasTransport.code(), 46);
}

#[test]
fn test_parse_plmn() {
    let (mcc, mnc) = parse_plmn("00101").unwrap();
    assert_eq!(mcc, 1);
    assert_eq!(mnc, 1);

    let (mcc, mnc) = parse_plmn("310260").unwrap();
    assert_eq!(mcc, 310);
    assert_eq!(mnc, 260);
}

#[test]
fn parse_plmn_refusals() {
    assert_eq!(parse_plmn("0010"), Err(PlmnError::InvalidFormat));
    assert_eq!(parse_plmn("0010123"), Err(PlmnError::InvalidFormat));
    assert_eq!(parse_plmn("0a101"), Err(PlmnError::InvalidNumber));
    assert_eq!(parse_plmn("001+1"), Ok((1, 1)));
    assert_eq!(parse_plmn("001+"), Err(PlmnError::InvalidFormat));
    assert_eq!(parse_plmn("00+1+"), Err(PlmnError::InvalidNumber));
}

#[test]
fn messages_keep_their_fields() {
    let ue = UeMessage::new(MessageType::RrcConnectionRequest, 1001, 1, vec![1, 2, 3], 77);
    assert_eq!(ue.ue_id, 1001);
    assert_eq!(ue.payload, vec![1, 2, 3]);
    assert_eq!(ue.timestamp, 77);
    let gnb = GnbMessage::new(MessageType::KeepAlive, 4, vec![], 5);
    assert_eq!(gnb.msg_type, MessageType::KeepAlive);
    assert_eq!(gnb.cell_id, 4);
}

#[test]
fn flexran_codes() {
    assert_eq!(FlexranError::Success.code(), 0);
    assert_eq!(FlexranError::ProcessingFailed.code(), -4);
    assert_eq!(version_info(), "FlexRAN SDK (Mock Implementation)");
}

#[test]
fn tx_ring_fifo_and_overflow() {
    let mut ring = TxCircularBuffer::new(3);
    assert_eq!(ring.used(), 0);
    assert_eq!(ring.pop(), None);
    assert_eq!(ring.push(), (0, false));
    assert_eq!(ring.push(), (1, false));
    assert_eq!(ring.used(), 2);
    // Full: the next push drops the oldest slot.
    assert_eq!(ring.push(), (2, true));
    assert_eq!(ring.used(), 2);
    assert_eq!(ring.pop(), Some(1));
    assert_eq!(ring.pop(), Some(2));
    assert_eq!(ring.pop(), None);
}

#[test]
fn rf_state_tx_flow() {
    let mut rf = RfDriverState::new(4).unwrap();
    assert!(matches!(rf.transmit(), Err(InterfaceError::NotInitialized)));
    assert!(matches!(rf.handle_tx_request(TxPoll::Request), Err(InterfaceError::NotInitialized)));
    rf.initialize().unwrap();
    assert_eq!(rf.transmit().unwrap(), 0);
    assert_eq!(rf.handle_tx_request(TxPoll::NoRequest).unwrap(), false);
    assert_eq!(rf.handle_tx_request(TxPoll::Request).unwrap(), true);
    // A request is pending: the reply is owed whatever the poll says.
    assert_eq!(rf.handle_tx_request(TxPoll::NoRequest).unwrap(), true);
    assert_eq!(rf.next_tx_buffer(), Some(0));
    rf.complete_tx_response(Some((1000, 1920)), Ok(())).unwrap();
    assert_eq!(rf.tx_timestamp(), 2920);
    assert_eq!(rf.stats().tx_samples, 1920);
    assert_eq!(rf.handle_tx_request(TxPoll::WrongState).unwrap(), false);
    assert_eq!(rf.next_tx_buffer(), None);
    rf.complete_tx_response(None, Ok(())).unwrap();
    assert_eq!(rf.stats().tx_underruns, 1);
    assert!(matches!(
        rf.handle_tx_request(TxPoll::Failed(zmq::Error::ETERM)),
        Err(InterfaceError::ZmqError(zmq::Error::ETERM))
    ));
}

#[test]
fn rf_state_rx_flow() {
    let mut rf = RfDriverState::new(2).unwrap();
    rf.initialize().unwrap();
    assert_eq!(rf.rx_state(), RxState::ReadyToRequest);
    rf.rx_request_sent();
    assert_eq!(rf.rx_state(), RxState::WaitingForResponse);
    assert_eq!(rf.rx_samples_received(100), 0);
    assert_eq!(rf.rx_samples_received(50), 100);
    assert_eq!(rf.rx_timestamp(), 150);
    assert_eq!(rf.stats().rx_samples, 150);
    rf.rx_request_sent();
    rf.rx_receive_failed();
    assert_eq!(rf.rx_state(), RxState::ReadyToRequest);
    rf.shutdown().unwrap();
    assert!(!rf.is_running_now());
}

#[test]
fn iq_byte_counts() {
    assert_eq!(iq_sample_count(1920 * 8).unwrap(), 1920);
    assert!(matches!(iq_sample_count(12), Err(InterfaceError::InvalidMessage)));
}

#[test]
fn cell_parameter_codes() {
    assert_eq!(bandwidth_from_mhz(20), Some(Bandwidth::Bw20));
    assert_eq!(bandwidth_from_mhz(100), Some(Bandwidth::Bw100));
    assert_eq!(bandwidth_from_mhz(35), None);
    assert_eq!(scs_from_khz(30), Some(SubcarrierSpacing::Scs30));
    assert_eq!(scs_from_khz(45), None);
}

#[test]
fn arfcn_to_carrier_frequency() {
    assert_eq!(frequency_from_arfcn_hz(368500, 3), Ok(1_842_500_000));
    assert_eq!(frequency_from_arfcn_hz(361000, 3), Ok(1_805_000_000));
    assert_eq!(frequency_from_arfcn_hz(360999, 3), Err(ArfcnError::InvalidArfcn));
    assert_eq!(frequency_from_arfcn_hz(368500, 1), Err(ArfcnError::UnsupportedBand));
}

#[test]
fn plmn_bcd_for_core_network() {
    assert_eq!(plmn_bcd("00101"), Ok([0x00, 0x01, 0xF1]));
    assert_eq!(plmn_bcd("310260"), Ok([0x13, 0x20, 0x06]));
    assert_eq!(plmn_bcd("0010"), Err(PlmnError::InvalidFormat));
}
