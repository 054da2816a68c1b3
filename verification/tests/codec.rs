use icmp_ping::icmp::DecodeError;
use icmp_ping::icmp::ICMPPacket;

/// One's-complement folding of a byte sequence read as big-endian 16-bit
/// words, as a plain reference computation.
fn folded_words_sum(bytes: &[u8]) -> u16 {
    let mut sum: u32 = 0;
    let mut i = 0;
    while i < bytes.len() {
        let high = bytes[i] as u32;
        let low = if i + 1 < bytes.len() { bytes[i + 1] as u32 } else { 0 };
        sum += (high << 8) | low;
        i += 2;
    }
    while (sum >> 16) != 0 {
        sum = (sum & 0xFFFF) + (sum >> 16);
    }
    sum as u16
}

#[test]
fn checksum_fixed_value_for_zero_message() {
    let mut packet = ICMPPacket::new(true, 0, 0, 0);
    assert_eq!(packet.icmp_type, 8);
    assert_eq!(packet.code, 0);
    packet.calculate_checksum();
    // sum = 0x0800; checksum = !0x0800 = 0xF7FF
    assert_eq!(packet.checksum, 0xF7FF);
}

#[test]
fn checksum_of_nonzero_fields() {
    let mut packet = ICMPPacket::new(true, 0x1234, 0x0102, 0);
    packet.calculate_checksum();
    // sum = 0x0800 + 0x1234 + 0x0102 = 0x1B36; checksum = 0xFFFF - 0x1B36
    assert_eq!(packet.checksum, 0xE4C9);
}

#[test]
fn checksum_self_consistency_on_wire_bytes() {
    let mut packet = ICMPPacket::new(true, 0xBEEF, 7, 33);
    packet.payload[0] = 0xAB;
    packet.payload[32] = 0xCD;
    packet.calculate_checksum();
    let bytes = packet.serialize();
    assert_eq!(folded_words_sum(&bytes), 0xFFFF);
}

#[test]
fn build_selects_type_by_address_family() {
    let v4 = ICMPPacket::new(true, 1, 2, 16);
    assert_eq!((v4.icmp_type, v4.code), (8, 0));
    let v6 = ICMPPacket::new(false, 1, 2, 16);
    assert_eq!((v6.icmp_type, v6.code), (128, 0));
    assert_eq!(ICMPPacket::get_packet_type(true), (8, 0));
    assert_eq!(ICMPPacket::get_packet_type(false), (128, 0));
}

#[test]
fn minimum_payload_enforced() {
    let small = ICMPPacket::new(true, 0, 0, 0);
    assert_eq!(small.payload, vec![0u8; 16]);
    let large = ICMPPacket::new(true, 0, 0, 40);
    assert_eq!(large.payload, vec![0u8; 40]);
}

#[test]
fn serialize_emits_big_endian_header_then_payload() {
    let mut packet = ICMPPacket::new(true, 0x1234, 0x0102, 0);
    packet.calculate_checksum();
    let bytes = packet.serialize();
    assert_eq!(bytes.len(), 24);
    assert_eq!(&bytes[..8], &[8, 0, 0xE4, 0xC9, 0x12, 0x34, 0x01, 0x02]);
    assert_eq!(&bytes[8..], &[0u8; 16]);
}

fn assert_sentinel(packet: &ICMPPacket) {
    assert_eq!(packet.icmp_type, 0);
    assert_eq!(packet.code, 0);
    assert_eq!(packet.checksum, 0);
    assert_eq!(packet.identifier, 0);
    assert_eq!(packet.sequence_number, 0);
    assert!(packet.payload.is_empty());
}

#[test]
fn decode_too_short_returns_sentinel() {
    let bytes = [0x45u8; 10];
    let packet = ICMPPacket::deserialize(&bytes, 10);
    assert_sentinel(&packet);
    assert!(matches!(
        ICMPPacket::try_deserialize(&bytes, 10),
        Err(DecodeError::TooShort)
    ));
}

#[test]
fn decode_bad_header_length_returns_sentinel() {
    // Low nibble of byte 0 encodes IHL=3, i.e. a 12-byte header, below the
    // 20-byte minimum.
    let mut bytes = [0u8; 64];
    bytes[0] = 0x43;
    let packet = ICMPPacket::deserialize(&bytes, 64);
    assert_sentinel(&packet);
    assert!(matches!(
        ICMPPacket::try_deserialize(&bytes, 64),
        Err(DecodeError::BadIpHeaderLength)
    ));

    // An announced header length that runs past the datagram's end.
    let mut bytes = [0u8; 24];
    bytes[0] = 0x4F; // IHL=15, 60-byte header
    assert!(matches!(
        ICMPPacket::try_deserialize(&bytes, 24),
        Err(DecodeError::BadIpHeaderLength)
    ));
    assert_sentinel(&ICMPPacket::deserialize(&bytes, 24));
}

#[test]
fn decode_truncated_icmp_header_returns_sentinel() {
    let mut bytes = [0u8; 24];
    bytes[0] = 0x45; // IHL=5, 20-byte header; only 4 bytes follow
    let packet = ICMPPacket::deserialize(&bytes, 24);
    assert_sentinel(&packet);
    assert!(matches!(
        ICMPPacket::try_deserialize(&bytes, 24),
        Err(DecodeError::TruncatedIcmpHeader)
    ));
}

#[test]
fn decode_reads_fields_after_ip_header() {
    // A 20-byte IPv4 header, then type 0, code 0, checksum 0xF7FF,
    // identifier 0x00AA, sequence 0x0003, and a 4-byte payload.
    let mut bytes = vec![0u8; 32];
    bytes[0] = 0x45;
    bytes[20] = 0;
    bytes[21] = 0;
    bytes[22] = 0xF7;
    bytes[23] = 0xFF;
    bytes[24] = 0x00;
    bytes[25] = 0xAA;
    bytes[26] = 0x00;
    bytes[27] = 0x03;
    bytes[28] = 0xDE;
    bytes[29] = 0xAD;
    bytes[30] = 0xBE;
    bytes[31] = 0xEF;
    let packet = ICMPPacket::deserialize(&bytes, 32);
    assert_eq!(packet.icmp_type, 0);
    assert_eq!(packet.code, 0);
    assert_eq!(packet.checksum, 0xF7FF);
    assert_eq!(packet.identifier, 0x00AA);
    assert_eq!(packet.sequence_number, 0x0003);
    assert_eq!(packet.payload, vec![0xDE, 0xAD, 0xBE, 0xEF]);
}

#[test]
fn decode_empty_payload_when_nothing_remains() {
    let mut bytes = [0u8; 28];
    bytes[0] = 0x45;
    bytes[20] = 8;
    let packet = ICMPPacket::deserialize(&bytes, 28);
    assert_eq!(packet.icmp_type, 8);
    assert!(packet.payload.is_empty());
}

#[test]
fn decode_ignores_bytes_past_len() {
    let mut bytes = [0xFFu8; 64];
    bytes[0] = 0x45;
    for b in bytes[1..28].iter_mut() {
        *b = 0;
    }
    bytes[20] = 8;
    let packet = ICMPPacket::deserialize(&bytes, 28);
    assert_eq!(packet.icmp_type, 8);
    assert!(packet.payload.is_empty());
}

#[test]
fn round_trip_through_fake_ip_header() {
    let mut packet = ICMPPacket::new(true, 0x4242, 5, 0);
    packet.calculate_checksum();
    let wire = packet.serialize();

    // A synthetic 20-byte IPv4 header announcing IHL=5.
    let mut datagram = vec![0u8; 20];
    datagram[0] = 0x45;
    datagram.extend_from_slice(&wire);

    let len = datagram.len();
    let decoded = ICMPPacket::deserialize(&datagram, len);
    assert_eq!(decoded.icmp_type, packet.icmp_type);
    assert_eq!(decoded.code, packet.code);
    assert_eq!(decoded.checksum, packet.checksum);
    assert_eq!(decoded.identifier, packet.identifier);
    assert_eq!(decoded.sequence_number, packet.sequence_number);
    assert_eq!(decoded.payload, packet.payload);
}

#[test]
fn round_trip_larger_payload() {
    let mut packet = ICMPPacket::new(false, 9, 1000, 41);
    packet.payload[40] = 0x7E;
    packet.calculate_checksum();
    let wire = packet.serialize();

    let mut datagram = vec![0u8; 20];
    datagram[0] = 0x45;
    datagram.extend_from_slice(&wire);

    let len = datagram.len();
    let decoded = ICMPPacket::deserialize(&datagram, len);
    assert_eq!(decoded.icmp_type, 128);
    assert_eq!(decoded.checksum, packet.checksum);
    assert_eq!(decoded.payload, packet.payload);
}
