use reliable_udp::errors::packet_parsing_errors::{TooBigPacket, TooSmallPacket, UknownPType};
use reliable_udp::errors::PacketError;
use reliable_udp::manager::{Connection, MAX_RECEIVE_BUFFER_SIZE, MAX_SEND_BUFFER_SIZE};
use reliable_udp::reliable_udp::{Packet, PType, HEADER_SIZE, MAX_PACKET_SIZE};

#[test]
fn packet_parse_reads_header_and_payload() {
    let bytes = vec![0, 0, 0, 1, 0, 0, 0, 2, 3, 7, 0x12, 0x34, b'h', b'i'];
    let p = Packet::parse(&bytes).unwrap();
    assert_eq!(p.seq, 1);
    assert_eq!(p.ack, 2);
    assert_eq!(p.ptype, PType::Ack);
    assert_eq!(p.padding, 7);
    assert_eq!(p.checksum, 0x1234);
    assert_eq!(p.data, b"hi".to_vec());
}

#[test]
fn packet_parse_errors() {
    assert_eq!(Packet::parse(&[0u8; HEADER_SIZE - 1]).err(), Some(PacketError::TooSmallPacket(TooSmallPacket)));
    let mut big = vec![0u8; MAX_PACKET_SIZE + 1];
    big[8] = 1;
    assert_eq!(
        Packet::parse(&big).err(),
        Some(PacketError::TooBigPacket(TooBigPacket::new(MAX_PACKET_SIZE + 1)))
    );
    let mut bytes = vec![0u8; HEADER_SIZE];
    bytes[8] = 5;
    assert_eq!(Packet::parse(&bytes).err(), Some(PacketError::UknownPType(UknownPType::new(5))));
    bytes[8] = 4;
    let p = Packet::parse(&bytes).unwrap();
    assert_eq!(p.ptype, PType::Fin);
    assert!(p.data.is_empty());
}

#[test]
fn packet_checksum_sums_header_words() {
    // 0x0001 + 0x0002 + 0x0000 + 0x0003 + (1 << 8 | 4)
    assert_eq!(Packet::calculate_checksum(0x0001_0002, 3, PType::Syn, 4), 1 + 2 + 3 + 0x104);
    // 4 * 0xffff + 0x04ff wraps to 0x04fb
    assert_eq!(Packet::calculate_checksum(u32::MAX, u32::MAX, PType::Fin, 0xff), 0x04fb);
}

#[test]
fn new_packet_has_valid_checksum() {
    let p = Packet::new(10, 20, PType::SynAck, 0, vec![1, 2, 3]).unwrap();
    assert_eq!(p.checksum, Packet::calculate_checksum(10, 20, PType::SynAck, 0));
    assert_eq!(p.checksum, 10 + 20 + 0x200);
    assert!(p.verify_checksum());
    assert_eq!(p.data, vec![1, 2, 3]);
    let mut q = p;
    q.padding = 1;
    assert!(!q.verify_checksum());
}

#[test]
fn new_packet_refuses_large_payload() {
    let limit = MAX_PACKET_SIZE - HEADER_SIZE;
    assert!(Packet::new(0, 0, PType::Syn, 0, vec![0; limit]).is_ok());
    assert_eq!(
        Packet::new(0, 0, PType::Syn, 0, vec![0; limit + 1]).err(),
        Some(PacketError::TooBigPacket(TooBigPacket::new(limit + 1)))
    );
}

#[test]
fn dump_writes_header_only() {
    let p = Packet::new(0x0102_0304, 0x0506_0708, PType::Fin, 9, vec![0xaa, 0xbb]).unwrap();
    let c = p.checksum;
    assert_eq!(
        p.dump(),
        vec![1, 2, 3, 4, 5, 6, 7, 8, 4, 9, (c >> 8) as u8, c as u8]
    );
}

#[test]
fn parse_of_dump_gives_header_back() {
    let p = Packet::new(u32::MAX, 77, PType::Ack, 0xfe, vec![5, 6, 7]).unwrap();
    let q = Packet::parse(&p.dump()).unwrap();
    assert_eq!((q.seq, q.ack, q.ptype, q.padding, q.checksum), (p.seq, p.ack, p.ptype, p.padding, p.checksum));
    assert!(q.data.is_empty());
    assert!(q.verify_checksum());

    let mut wire = p.dump();
    wire.extend_from_slice(&p.data);
    let r = Packet::parse(&wire).unwrap();
    assert_eq!(r.data, p.data);
    assert_eq!(r.checksum, p.checksum);
}

#[test]
fn dump_of_parse_gives_bytes_back() {
    let bytes = vec![9, 8, 7, 6, 5, 4, 3, 2, 2, 0x55, 0xde, 0xad, 1, 2, 3];
    let p = Packet::parse(&bytes).unwrap();
    let mut again = p.dump();
    again.extend_from_slice(&p.data);
    assert_eq!(again, bytes);
}

#[test]
fn packet_ptype_codes() {
    let all = [PType::Syn, PType::SynAck, PType::Ack, PType::Fin];
    for (i, t) in all.iter().enumerate() {
        assert_eq!(t.code() as usize, i + 1);
        assert_eq!(PType::from_code(t.code()), Some(*t));
    }
    assert_eq!(PType::from_code(0), None);
    assert_eq!(PType::from_code(5), None);
}

#[test]
fn error_constructors_keep_values() {
    assert_eq!(UknownPType::new(9).ptype, 9);
    assert_eq!(TooBigPacket::new(70000).size, 70000);
}

#[test]
fn connection_fields() {
    let mut c = Connection { seq: 1, ack: 2, previous_seq: 1, is_open: false, last_response: 5 };
    c.seq += 1;
    c.is_open = true;
    assert_eq!((c.seq, c.ack, c.previous_seq, c.is_open, c.last_response), (2, 2, 1, true, 5));
    assert_eq!(MAX_RECEIVE_BUFFER_SIZE, MAX_SEND_BUFFER_SIZE);
}
