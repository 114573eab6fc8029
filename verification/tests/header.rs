use reliable_udp::errors::packet_parsing_errors::{TooBigPacket, TooSmallPacket, UknownPType};
use reliable_udp::errors::PacketError;
use reliable_udp::packet::{Header, PType, HEADER_SIZE, MAX_PACKET_SIZE};

fn sample() -> Vec<u8> {
    vec![0x12, 0x34, 0x56, 0x78, 0x9a, 0xbc, 0xde, 0xf0, 0x00, 4, 0xab, 0xcd, 0x01, 0x02]
}

#[test]
fn header_parse_reads_fields() {
    let h = Header::parse(&sample()).unwrap();
    assert_eq!(h.seq, 0x1234_5678);
    assert_eq!(h.ack, 0x9abc_def0);
    assert_eq!(h.ptype, PType::Snd);
    assert_eq!(h.header_checksum, 0xabcd);
    assert_eq!(h.checksum, 0x0102);
}

#[test]
fn header_parse_ignores_trailing_bytes() {
    let mut bytes = sample();
    bytes.extend_from_slice(&[9, 9, 9]);
    let h = Header::parse(&bytes).unwrap();
    assert_eq!(h.seq, 0x1234_5678);
    assert_eq!(h.checksum, 0x0102);
}

#[test]
fn header_parse_too_small() {
    let bytes = vec![0u8; HEADER_SIZE - 1];
    assert_eq!(Header::parse(&bytes).err(), Some(PacketError::TooSmallPacket(TooSmallPacket)));
    assert_eq!(Header::parse(&[]).err(), Some(PacketError::TooSmallPacket(TooSmallPacket)));
}

#[test]
fn header_parse_too_big() {
    let mut bytes = vec![0u8; MAX_PACKET_SIZE + 1];
    bytes[9] = 1;
    assert_eq!(
        Header::parse(&bytes).err(),
        Some(PacketError::TooBigPacket(TooBigPacket::new(MAX_PACKET_SIZE + 1)))
    );
    let mut largest = vec![0u8; MAX_PACKET_SIZE];
    largest[9] = 1;
    assert!(Header::parse(&largest).is_ok());
}

#[test]
fn header_parse_unknown_type_reports_type_byte() {
    let mut bytes = sample();
    bytes[8] = 0x42;
    bytes[9] = 6;
    assert_eq!(Header::parse(&bytes).err(), Some(PacketError::UknownPType(UknownPType::new(6))));
    bytes[9] = 0;
    assert_eq!(Header::parse(&bytes).err(), Some(PacketError::UknownPType(UknownPType { ptype: 0 })));
    let bytes = [0, 0, 0, 0, 0, 0, 0, 0, 9, 6, 0, 0, 0, 0];
    assert_eq!(Header::parse(&bytes).err(), Some(PacketError::UknownPType(UknownPType::new(6))));
}

#[test]
fn header_ptype_codes() {
    let all = [PType::Syn, PType::SynAck, PType::Ack, PType::Snd, PType::Fin];
    for (i, t) in all.iter().enumerate() {
        assert_eq!(t.code() as usize, i + 1);
        assert_eq!(PType::from_code(t.code()), Some(*t));
    }
    assert_eq!(PType::from_code(0), None);
    assert_eq!(PType::from_code(6), None);
}

#[test]
fn header_checksum_sums_halves() {
    // 0x1234 + 0x5678 + 0x0001 + 0x0002 + 2
    assert_eq!(Header::calculate_header_checksum(0x1234_5678, 0x0001_0002, PType::SynAck), 0x68b1);
}

#[test]
fn header_checksum_wraps_around() {
    // 4 * 0xffff + 5 = 0x4_0001
    assert_eq!(Header::calculate_header_checksum(u32::MAX, u32::MAX, PType::Fin), 1);
}

#[test]
fn checksum_without_payload_is_checksum_of_empty_payload() {
    let none = Header::calculate_checksum(7, 9, PType::Ack, 100, None);
    let empty = Header::calculate_checksum(7, 9, PType::Ack, 100, Some(&[]));
    assert_eq!(none, empty);
    assert_eq!(none, 100 + 7 + 9 + 3);
}

#[test]
fn checksum_extends_header_checksum() {
    let (seq, ack, t, hc) = (0xffff_0001u32, 0x8000_8000u32, PType::Fin, 0xfff0u16);
    let data = [0xff, 0xee, 0x10];
    let c = Header::calculate_checksum(seq, ack, t, hc, Some(&data));
    let h = Header::calculate_header_checksum(seq, ack, t) as u32;
    let words = 0xffeeu32 + 0x1000;
    assert_eq!(c as u32, (hc as u32 + h + words) % 0x1_0000);
}

#[test]
fn checksum_odd_payload_pads_last_byte() {
    assert_eq!(Header::calculate_checksum(0, 0, PType::Syn, 0, Some(&[1])), 1 + 0x100);
    assert_eq!(Header::calculate_checksum(0, 0, PType::Syn, 0, Some(&[1, 2])), 1 + 0x102);
}

#[test]
fn verify_header_checksum_accepts_computed_checksum() {
    let hc = Header::calculate_header_checksum(5, 6, PType::Ack);
    let good = Header { seq: 5, ack: 6, ptype: PType::Ack, header_checksum: hc, checksum: 0 };
    assert!(good.verify_header_checksum());
    let bad = Header { seq: 5, ack: 6, ptype: PType::Ack, header_checksum: hc.wrapping_add(1), checksum: 0 };
    assert!(!bad.verify_header_checksum());
}
