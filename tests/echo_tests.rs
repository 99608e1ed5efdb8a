use icmp_echo::checksum::calculate_checksum;
use icmp_echo::echo::{build_echo_request, ICMP_ECHO_REQUEST, ICMP_HEADER_LEN, PACKET_SIZE};
use icmp_echo::reply::{ihl_bytes, read_be_u16, validate_echo_reply, ValidatedReply, ValidationError};

fn reply_datagram(message_type: u8) -> Vec<u8> {
    let mut raw = vec![0u8; 20];
    raw[0] = 0x45;
    raw.extend_from_slice(&[message_type, 0, 0, 0, 0x12, 0x34, 0x00, 0x01]);
    raw.extend_from_slice(&[0xAB; 56]);
    raw
}

#[test]
fn checksum_of_empty_input() {
    assert_eq!(calculate_checksum(&[]), 0xFFFF);
}

#[test]
fn checksum_of_odd_length_input() {
    assert_eq!(calculate_checksum(&[0x01]), calculate_checksum(&[0x01, 0x00]));
    assert_eq!(calculate_checksum(&[0x01]), 0xFEFF);
    let odd = [0x12, 0x34, 0x56];
    assert_eq!(calculate_checksum(&odd), calculate_checksum(&[0x12, 0x34, 0x56, 0x00]));
}

#[test]
fn checksum_known_value() {
    let data = [0x00, 0x01, 0xf2, 0x03, 0xf4, 0xf5, 0xf6, 0xf7];
    assert_eq!(calculate_checksum(&data), 0x220d);
}

#[test]
fn checksum_folds_carries() {
    assert_eq!(calculate_checksum(&[0xFF, 0xFF, 0xFF, 0xFF]), 0x0000);
    assert_eq!(calculate_checksum(&[0x80, 0x00, 0x80, 0x00]), 0xFFFE);
}

#[test]
fn checksum_accumulator_wraps_at_32_bits() {
    let data = vec![0xFFu8; 2 * 65538];
    assert_eq!(calculate_checksum(&data), 0x0001);
}

#[test]
fn checksum_self_verifies_after_storing() {
    let mut data: Vec<u8> = (0u8..40).map(|b| b.wrapping_mul(37)).collect();
    data[2] = 0;
    data[3] = 0;
    let c = calculate_checksum(&data);
    data[2] = (c >> 8) as u8;
    data[3] = (c & 0xFF) as u8;
    assert_eq!(calculate_checksum(&data), 0);
}

#[test]
fn build_request_layout() {
    let p = build_echo_request(0x1234, 0x0001, 56);
    assert_eq!(p.len(), 64);
    assert_eq!(p.len(), PACKET_SIZE);
    assert_eq!(&p[4..6], &[0x12, 0x34]);
    assert_eq!(&p[6..8], &[0x00, 0x01]);
    assert_eq!(p[0], ICMP_ECHO_REQUEST);
    assert_eq!(p[1], 0);
    assert!(p[8..].iter().all(|&b| b == 0));
}

#[test]
fn build_request_checksum_value() {
    let p = build_echo_request(0x1234, 0x0001, 56);
    assert_eq!(&p[2..4], &[0xE5, 0xCA]);
    assert_eq!(calculate_checksum(&p), 0);
}

#[test]
fn build_request_without_payload() {
    let p = build_echo_request(0xFFFF, 0xFFFF, 0);
    assert_eq!(p.len(), ICMP_HEADER_LEN);
    assert_eq!(p, vec![8, 0, 0xF7, 0xFF, 0xFF, 0xFF, 0xFF, 0xFF]);
    assert_eq!(calculate_checksum(&p), 0);
}

#[test]
fn header_length_extraction() {
    assert_eq!(ihl_bytes(&[0x45, 0, 0, 0]), 20);
    assert_eq!(ihl_bytes(&[0x4F]), 60);
    assert_eq!(ihl_bytes(&[0x40]), 0);
}

#[test]
fn read_big_endian_word() {
    assert_eq!(read_be_u16(&[0x00, 0x12, 0x34], 1), 0x1234);
}

#[test]
fn valid_reply_scenario() {
    let raw = reply_datagram(0);
    let r = validate_echo_reply(&raw, 0x1234, 0x0001, 17);
    assert_eq!(r, Ok(ValidatedReply { byte_count: 84, round_trip_ms: 17 }));
}

#[test]
fn invalid_reply_scenario() {
    let raw = reply_datagram(8);
    let r = validate_echo_reply(&raw, 0x1234, 0x0001, 17);
    assert_eq!(r, Err(ValidationError::InvalidReply { identifier: 0x1234, sequence: 0x0001 }));
}

#[test]
fn mismatched_identifier_and_sequence() {
    let raw = reply_datagram(0);
    assert_eq!(
        validate_echo_reply(&raw, 0x3412, 0x0001, 0),
        Err(ValidationError::InvalidReply { identifier: 0x1234, sequence: 0x0001 })
    );
    assert_eq!(
        validate_echo_reply(&raw, 0x1234, 0x0100, 0),
        Err(ValidationError::InvalidReply { identifier: 0x1234, sequence: 0x0001 })
    );
}

#[test]
fn too_short_scenario() {
    let raw = reply_datagram(0);
    let ihl = ihl_bytes(&raw);
    assert_eq!(validate_echo_reply(&raw[..ihl + 7], 0x1234, 0x0001, 0), Err(ValidationError::TooShort));
    assert_eq!(
        validate_echo_reply(&raw[..ihl + 8], 0x1234, 0x0001, 0),
        Ok(ValidatedReply { byte_count: 28, round_trip_ms: 0 })
    );
}

#[test]
fn empty_datagram_is_too_short() {
    assert_eq!(validate_echo_reply(&[], 0x1234, 0x0001, 0), Err(ValidationError::TooShort));
}

#[test]
fn reply_after_longer_ip_header() {
    let mut raw = vec![0u8; 24];
    raw[0] = 0x46;
    raw.extend_from_slice(&[0, 0, 0, 0, 0xBE, 0xEF, 0x00, 0x07]);
    assert_eq!(
        validate_echo_reply(&raw, 0xBEEF, 7, 3),
        Ok(ValidatedReply { byte_count: 32, round_trip_ms: 3 })
    );
}

#[test]
fn echoed_request_is_accepted() {
    let mut icmp = build_echo_request(0xBEEF, 0x0042, 56);
    icmp[0] = 0;
    let mut raw = vec![0u8; 20];
    raw[0] = 0x45;
    raw.extend_from_slice(&icmp);
    assert_eq!(
        validate_echo_reply(&raw, 0xBEEF, 0x0042, 9),
        Ok(ValidatedReply { byte_count: 84, round_trip_ms: 9 })
    );
    assert_eq!(
        validate_echo_reply(&raw, 0xBEEF, 0x0043, 9),
        Err(ValidationError::InvalidReply { identifier: 0xBEEF, sequence: 0x0042 })
    );
}
