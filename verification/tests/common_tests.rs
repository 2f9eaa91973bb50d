use albor::common::types::{Bandwidth, Pci, PlmnId, Qci, Rnti, SubcarrierSpacing};
use albor::common::utils::time;
use albor::common::utils::{
    bytes_to_hex, calculate_nrb, crc16, crc24, next_power_of_2, pack_bits, unpack_bits,
};

#[test]
fn test_pci_validation() {
    assert!(Pci::new(0).is_some());
    assert!(Pci::new(1007).is_some());
    assert!(Pci::new(1008).is_none());
}

#[test]
fn test_bandwidth_conversion() {
    assert_eq!(Bandwidth::Bw20.as_hz(), 20_000_000);
    assert_eq!(Bandwidth::Bw100.as_hz(), 100_000_000);
}

#[test]
fn types_test_plmn_encoding() {
    let plmn = PlmnId::new([2, 0, 8], [9, 3, 0], 2).unwrap();
    let encoded = plmn.encode();
    assert_eq!(encoded, [0x02, 0xF8, 0x39]);
}

#[test]
fn test_bytes_to_hex() {
    let data = vec![0x12, 0x34, 0xAB, 0xCD];
    assert_eq!(bytes_to_hex(&data), "12 34 ab cd");
}

#[test]
fn test_crc24() {
    let data = b"Hello";
    let crc = crc24(data);
    assert_eq!(crc & 0xFFFFFF, crc);
}

#[test]
fn test_bit_packing() {
    let bits = vec![true, false, true, false, true, false, true, false];
    let packed = pack_bits(&bits);
    assert_eq!(packed[0], 0xAA);

    let unpacked = unpack_bits(&packed);
    assert_eq!(unpacked[..8], bits);
}

#[test]
fn test_next_power_of_2() {
    assert_eq!(next_power_of_2(0), 1);
    assert_eq!(next_power_of_2(1), 1);
    assert_eq!(next_power_of_2(5), 8);
    assert_eq!(next_power_of_2(16), 16);
    assert_eq!(next_power_of_2(17), 32);
}

#[test]
fn test_calculate_nrb() {
    assert_eq!(calculate_nrb(20_000_000, 30), 55);
    assert_eq!(calculate_nrb(100_000_000, 30), 277);
}

#[test]
fn test_slot_duration() {
    assert_eq!(time::slot_duration_us(15), 1000);
    assert_eq!(time::slot_duration_us(30), 500);
    assert_eq!(time::slot_duration_us(120), 125);
}

#[test]
fn crc24_check_values() {
    assert_eq!(crc24(b"123456789"), 0xCDE703);
    assert_eq!(crc24(b"Hello"), 0xB3C9B6);
    assert_eq!(crc24(&[]), 0);
}

#[test]
fn crc16_check_value() {
    assert_eq!(crc16(b"123456789"), 0x31C3);
    assert_eq!(crc16(&[]), 0);
}

#[test]
fn pack_unpack_round_trip_pads_with_zeros() {
    let bits = vec![true, true, false, true, false, false, true, true, true, false, true];
    let packed = pack_bits(&bits);
    assert_eq!(packed.len(), 2);
    assert_eq!(packed[0], 0b1101_0011);
    assert_eq!(packed[1], 0b1010_0000);
    let unpacked = unpack_bits(&packed);
    assert_eq!(unpacked.len(), 16);
    assert_eq!(unpacked[..11], bits[..]);
    assert!(unpacked[11..].iter().all(|b| !*b));
}

#[test]
fn pack_bits_of_nothing_is_empty() {
    let packed = pack_bits(&[]);
    assert_eq!(packed.len(), 0);
}

#[test]
fn hex_of_empty_and_single_byte() {
    assert_eq!(bytes_to_hex(&[]), "");
    assert_eq!(bytes_to_hex(&[0x0F]), "0f");
}

#[test]
fn next_power_of_2_edges() {
    assert_eq!(next_power_of_2(2), 2);
    assert_eq!(next_power_of_2(3), 4);
    assert_eq!(next_power_of_2(0x8000_0000), 0x8000_0000);
    assert_eq!(next_power_of_2(0x4000_0001), 0x8000_0000);
}

#[test]
fn nrb_at_15_khz() {
    assert_eq!(calculate_nrb(10_000_000, 15), 55);
    assert_eq!(calculate_nrb(5_000_000, 15), 27);
}

#[test]
fn slots_per_frame_by_numerology() {
    assert_eq!(time::slots_per_frame(15), 10);
    assert_eq!(time::slots_per_frame(30), 20);
    assert_eq!(time::slots_per_frame(240), 160);
    assert_eq!(time::slot_duration_us(60), 250);
    assert_eq!(time::slot_duration_us(240), 62);
}

#[test]
fn plmn_three_digit_mnc_and_refusals() {
    let plmn = PlmnId::new([3, 1, 0], [2, 6, 0], 3).unwrap();
    assert_eq!(plmn.encode(), [0x13, 0x00, 0x62]);
    assert!(PlmnId::new([0, 0, 1], [0, 1, 0], 4).is_none());
}

#[test]
fn scs_and_bandwidth_values() {
    assert_eq!(SubcarrierSpacing::Scs30.khz(), 30);
    assert_eq!(SubcarrierSpacing::Scs240.khz(), 240);
    assert_eq!(Bandwidth::Bw5.mhz(), 5);
    assert_eq!(Bandwidth::Bw60.as_hz(), 60_000_000);
}

#[test]
fn qci_presets_and_rnti() {
    assert_eq!(Qci::voice().0, 1);
    assert_eq!(Qci::video().0, 2);
    assert_eq!(Qci::default_bearer().0, 9);
    assert_eq!(Rnti::new(0x4601).value(), 0x4601);
}

#[test]
fn crc24_of_data_with_its_crc_is_zero() {
    for data in [&b"Hello"[..], &b""[..], &[0xFFu8, 0x00, 0x5A][..]] {
        let r = crc24(data);
        let mut d = data.to_vec();
        d.extend_from_slice(&[(r >> 16) as u8, (r >> 8) as u8, r as u8]);
        assert_eq!(crc24(&d), 0);
    }
}
