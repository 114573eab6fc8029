//! Packets whose type byte precedes a padding byte, with one checksum over
//! the header and an owned payload.
use crate::errors::packet_parsing_errors::{TooBigPacket, TooSmallPacket, UknownPType};
use crate::errors::PacketError;
use crate::wire::{
    lemma_be_values,
    read_u16_be, read_u32_be,
    add_be_words, halves_sum, lemma_be_u16_roundtrip, lemma_be_u32_roundtrip, lemma_u16_bytes_roundtrip,
    lemma_u32_be_words, lemma_u32_bytes_roundtrip, word_at, words_sum, be_u16, be_u32, data_words_sum, push_u16_be, push_u32_be, u16_be_bytes,
    u32_be_bytes, wrap16,
};
use vstd::prelude::*;

verus! {

pub const HEADER_SIZE: usize = 12;

pub const MAX_PACKET_SIZE: usize = 65507;

/// The packet types, with wire codes 1 to 4 in the order listed.
#[derive(Clone, Copy, Debug, PartialEq, Eq, Structural)]
pub enum PType {
    Syn,
    SynAck,
    Ack,
    Fin,
}

impl PType {
    /// The wire code of the packet type.
    pub open spec fn spec_code(self) -> u8 {
        match self {
            PType::Syn => 1,
            PType::SynAck => 2,
            PType::Ack => 3,
            PType::Fin => 4,
        }
    }

    /// The packet type with wire code `b`, if any.
    pub open spec fn spec_from_code(b: u8) -> Option<PType> {
        if b == 1 {
            Some(PType::Syn)
        } else if b == 2 {
            Some(PType::SynAck)
        } else if b == 3 {
            Some(PType::Ack)
        } else if b == 4 {
            Some(PType::Fin)
        } else {
            None
        }
    }

    pub fn code(self) -> (b: u8)
        ensures
            b == self.spec_code(),
    {
        match self {
            PType::Syn => 1,
            PType::SynAck => 2,
            PType::Ack => 3,
            PType::Fin => 4,
        }
    }

    pub fn from_code(b: u8) -> (t: Option<PType>)
        ensures
            t == PType::spec_from_code(b),
    {
        match b {
            1 => Some(PType::Syn),
            2 => Some(PType::SynAck),
            3 => Some(PType::Ack),
            4 => Some(PType::Fin),
            _ => None,
        }
    }
}

/// Every packet type is found again from its code, and every code that
/// names a packet type is that type's code.
pub proof fn law_ptype_code_roundtrip(t: PType, b: u8)
    ensures
        PType::spec_from_code(t.spec_code()) == Some(t),
        PType::spec_from_code(b) matches Some(u) ==> u.spec_code() == b,
        PType::spec_from_code(b) is Some <==> 1 <= b <= 4,
{
}

/// A packet. On the wire: `seq` (bytes 0..4) and `ack` (4..8), big-endian,
/// the type code (8), `padding` (9), `checksum` (10..12, big-endian), then
/// the payload `data`.
pub struct Packet {
    pub seq: u32,
    pub ack: u32,
    pub ptype: PType,
    pub padding: u8,
    pub checksum: u16,
    pub data: Vec<u8>,
}

/// A packet as a value: its header fields and its payload bytes.
pub struct PacketView {
    pub seq: u32,
    pub ack: u32,
    pub ptype: PType,
    pub padding: u8,
    pub checksum: u16,
    pub data: Seq<u8>,
}

impl View for Packet {
    type V = PacketView;

    open spec fn view(&self) -> PacketView {
        PacketView {
            seq: self.seq,
            ack: self.ack,
            ptype: self.ptype,
            padding: self.padding,
            checksum: self.checksum,
            data: self.data@,
        }
    }
}

/// The ten header bytes that precede the checksum.
pub open spec fn header_prefix(seq: u32, ack: u32, ptype: PType, padding: u8) -> Seq<u8> {
    u32_be_bytes(seq) + u32_be_bytes(ack) + seq![ptype.spec_code(), padding]
}

/// The checksum of a packet: the five big-endian words of the ten header
/// bytes before it, summed in 16 bits with wrap-around.
pub open spec fn spec_packet_checksum(seq: u32, ack: u32, ptype: PType, padding: u8) -> u16 {
    wrap16(data_words_sum(header_prefix(seq, ack, ptype, padding)))
}

impl PacketView {
    /// Whether the stored checksum matches the header fields.
    pub open spec fn has_valid_checksum(self) -> bool {
        self.checksum == spec_packet_checksum(self.seq, self.ack, self.ptype, self.padding)
    }
}

/// The bytes that `dump` gives: the twelve header bytes (the payload is not
/// written).
pub open spec fn spec_dump(p: PacketView) -> Seq<u8> {
    header_prefix(p.seq, p.ack, p.ptype, p.padding) + u16_be_bytes(p.checksum)
}

/// What parsing `s` as a packet gives.
pub open spec fn spec_parse_packet(s: Seq<u8>) -> Result<PacketView, PacketError> {
    if s.len() < HEADER_SIZE {
        Err(PacketError::TooSmallPacket(TooSmallPacket))
    } else if s.len() > MAX_PACKET_SIZE {
        Err(PacketError::TooBigPacket(TooBigPacket { size: s.len() as usize }))
    } else {
        match PType::spec_from_code(s[8]) {
            None => Err(PacketError::UknownPType(UknownPType { ptype: s[8] })),
            Some(ptype) => Ok(
                PacketView {
                    seq: be_u32(s[0], s[1], s[2], s[3]),
                    ack: be_u32(s[4], s[5], s[6], s[7]),
                    ptype,
                    padding: s[9],
                    checksum: be_u16(s[10], s[11]),
                    data: s.skip(HEADER_SIZE as int),
                },
            ),
        }
    }
}

/// What building a packet from these fields gives.
pub open spec fn spec_new_packet(seq: u32, ack: u32, ptype: PType, padding: u8, data: Seq<u8>) -> Result<
    PacketView,
    PacketError,
> {
    if data.len() > MAX_PACKET_SIZE - HEADER_SIZE {
        Err(PacketError::TooBigPacket(TooBigPacket { size: data.len() as usize }))
    } else {
        Ok(
            PacketView {
                seq,
                ack,
                ptype,
                padding,
                checksum: spec_packet_checksum(seq, ack, ptype, padding),
                data,
            },
        )
    }
}

/// A result of `Packet` matches a result of `PacketView` when the errors
/// are equal or the packet's view is the value.
pub open spec fn matches_view(r: Result<Packet, PacketError>, v: Result<PacketView, PacketError>) -> bool {
    match r {
        Ok(p) => v == Ok::<PacketView, PacketError>(p@),
        Err(e) => v == Err::<PacketView, PacketError>(e),
    }
}

impl Packet {
    /// Reads a packet: the header from the first twelve bytes, the payload
    /// from the rest.
    pub fn parse(data: &[u8]) -> (r: Result<Packet, PacketError>)
        ensures
            matches_view(r, spec_parse_packet(data@)),
    {
        if data.len() < HEADER_SIZE {
            return Err(PacketError::TooSmallPacket(TooSmallPacket));
        } else if data.len() > MAX_PACKET_SIZE {
            return Err(PacketError::TooBigPacket(TooBigPacket::new(data.len())));
        }
        let seq: u32 = read_u32_be(data, 0);
        let ack: u32 = read_u32_be(data, 4);
        let ptype: PType = match PType::from_code(data[8]) {
            Some(t) => t,
            None => return Err(PacketError::UknownPType(UknownPType::new(data[8]))),
        };
        let padding: u8 = data[9];
        let checksum: u16 = read_u16_be(data, 10);
        let payload = vstd::slice::slice_to_vec(
            vstd::slice::slice_subrange(data, HEADER_SIZE, data.len()),
        );
        Ok(Packet { seq, ack, ptype, padding, checksum, data: payload })
    }

    /// The checksum of a packet with these header fields.
    pub fn calculate_checksum(seq: u32, ack: u32, ptype: PType, padding: u8) -> (c: u16)
        ensures
            c == spec_packet_checksum(seq, ack, ptype, padding),
    {
        let mut dump: Vec<u8> = Vec::with_capacity(HEADER_SIZE - 2);
        push_u32_be(&mut dump, seq);
        push_u32_be(&mut dump, ack);
        dump.push(ptype.code());
        dump.push(padding);
        assert(dump@ =~= header_prefix(seq, ack, ptype, padding));
        let checksum = add_be_words(0, dump.as_slice());
        checksum
    }

    /// Builds a packet with these fields and its checksum; a payload longer
    /// than a packet can carry is refused with its length.
    pub fn new(seq: u32, ack: u32, ptype: PType, padding: u8, data: Vec<u8>) -> (r: Result<
        Packet,
        PacketError,
    >)
        ensures
            matches_view(r, spec_new_packet(seq, ack, ptype, padding, data@)),
    {
        if data.len() > MAX_PACKET_SIZE - HEADER_SIZE {
            return Err(PacketError::TooBigPacket(TooBigPacket::new(data.len())));
        }
        let checksum = Packet::calculate_checksum(seq, ack, ptype, padding);
        Ok(Packet { seq, ack, ptype, padding, checksum, data })
    }

    /// Whether the stored checksum matches the header fields.
    pub fn verify_checksum(&self) -> (ok: bool)
        ensures
            ok == self@.has_valid_checksum(),
    {
        let calculated_checksum = Packet::calculate_checksum(
            self.seq,
            self.ack,
            self.ptype,
            self.padding,
        );
        self.checksum == calculated_checksum
    }

    /// The header of the packet in wire order (the payload is not written).
    pub fn dump(&self) -> (out: Vec<u8>)
        ensures
            out@ == spec_dump(self@),
    {
        let mut to_return: Vec<u8> = Vec::with_capacity(HEADER_SIZE);
        push_u32_be(&mut to_return, self.seq);
        push_u32_be(&mut to_return, self.ack);
        to_return.push(self.ptype.code());
        to_return.push(self.padding);
        push_u16_be(&mut to_return, self.checksum);
        assert(to_return@ =~= spec_dump(self@));
        to_return
    }
}

/// `new` refuses exactly the payloads longer than 65495 bytes, reporting
/// their length; otherwise the packet keeps the given header fields and
/// payload and carries a checksum that `verify_checksum` accepts.
pub proof fn law_new_packet_has_valid_checksum(
    seq: u32,
    ack: u32,
    ptype: PType,
    padding: u8,
    data: Seq<u8>,
)
    ensures
        data.len() > 65495 ==> spec_new_packet(seq, ack, ptype, padding, data) == Err::<
            PacketView,
            PacketError,
        >(PacketError::TooBigPacket(TooBigPacket { size: data.len() as usize })),
        data.len() <= 65495 ==> (spec_new_packet(seq, ack, ptype, padding, data) matches Ok(p) && {
            &&& p.seq == seq
            &&& p.ack == ack
            &&& p.ptype == ptype
            &&& p.padding == padding
            &&& p.data == data
            &&& p.has_valid_checksum()
        }),
{
}

/// For given header fields at most one checksum is valid: two packets that
/// agree on `seq`, `ack`, `ptype` and `padding` and both pass
/// `verify_checksum` carry the same 16-bit checksum.
pub proof fn law_valid_checksum_unique(p: PacketView, q: PacketView)
    requires
        p.seq == q.seq,
        p.ack == q.ack,
        p.ptype == q.ptype,
        p.padding == q.padding,
        p.has_valid_checksum(),
        q.has_valid_checksum(),
    ensures
        p.checksum == q.checksum,
{
}

/// A packet is valid exactly when its checksum is the sum of the 16-bit
/// halves of `seq` and `ack` and of the word whose high byte is the type's
/// wire code (Syn 1, SynAck 2, Ack 3, Fin 4) and whose low byte is the
/// padding, modulo 2^16.
pub proof fn law_valid_checksum_value(p: PacketView)
    ensures
        p.ptype == PType::Syn ==> (p.has_valid_checksum() <==> p.checksum == (p.seq / 0x1_0000
            + p.seq % 0x1_0000 + p.ack / 0x1_0000 + p.ack % 0x1_0000 + 0x100 + p.padding)
            % 0x1_0000),
        p.ptype == PType::SynAck ==> (p.has_valid_checksum() <==> p.checksum == (p.seq / 0x1_0000
            + p.seq % 0x1_0000 + p.ack / 0x1_0000 + p.ack % 0x1_0000 + 0x200 + p.padding)
            % 0x1_0000),
        p.ptype == PType::Ack ==> (p.has_valid_checksum() <==> p.checksum == (p.seq / 0x1_0000
            + p.seq % 0x1_0000 + p.ack / 0x1_0000 + p.ack % 0x1_0000 + 0x300 + p.padding)
            % 0x1_0000),
        p.ptype == PType::Fin ==> (p.has_valid_checksum() <==> p.checksum == (p.seq / 0x1_0000
            + p.seq % 0x1_0000 + p.ack / 0x1_0000 + p.ack % 0x1_0000 + 0x400 + p.padding)
            % 0x1_0000),
{
    law_packet_checksum_closed_form(p.seq, p.ack, p.ptype, p.padding);
}

/// Every input is answered: too short and too long inputs are refused with
/// their reasons; within the limits, the type byte (byte 8) decides. A code
/// from 1 to 4 gives Syn, SynAck, Ack, Fin in that order, the header fields
/// are the big-endian values of their bytes, and the payload is every byte
/// after the twelfth; any other code is refused with that code.
pub proof fn law_parse_packet_outcomes(s: Seq<u8>)
    ensures
        s.len() < 12 ==> spec_parse_packet(s) == Err::<PacketView, PacketError>(
            PacketError::TooSmallPacket(TooSmallPacket),
        ),
        s.len() > 65507 ==> spec_parse_packet(s) == Err::<PacketView, PacketError>(
            PacketError::TooBigPacket(TooBigPacket { size: s.len() as usize }),
        ),
        12 <= s.len() <= 65507 && !(1 <= s[8] <= 4) ==> spec_parse_packet(s) == Err::<
            PacketView,
            PacketError,
        >(PacketError::UknownPType(UknownPType { ptype: s[8] })),
        12 <= s.len() <= 65507 && 1 <= s[8] <= 4 ==> (spec_parse_packet(s) matches Ok(p) && {
            &&& p.seq == s[0] * 0x100_0000 + s[1] * 0x1_0000 + s[2] * 0x100 + s[3]
            &&& p.ack == s[4] * 0x100_0000 + s[5] * 0x1_0000 + s[6] * 0x100 + s[7]
            &&& p.padding == s[9]
            &&& p.checksum == s[10] * 0x100 + s[11]
            &&& p.data.len() == s.len() - 12
            &&& forall|i: int| 0 <= i < p.data.len() ==> p.data[i] == s[12 + i]
            &&& (s[8] == 1 ==> p.ptype == PType::Syn)
            &&& (s[8] == 2 ==> p.ptype == PType::SynAck)
            &&& (s[8] == 3 ==> p.ptype == PType::Ack)
            &&& (s[8] == 4 ==> p.ptype == PType::Fin)
        }),
{
    if 12 <= s.len() {
        lemma_be_values(s[0], s[1], s[2], s[3]);
        lemma_be_values(s[4], s[5], s[6], s[7]);
        lemma_be_values(s[10], s[11], s[0], s[0]);
    }
}

/// The packet checksum is the sum of the halves of `seq` and of `ack` and of
/// the word made of the type code (high byte) and the padding byte (low
/// byte), reduced to 16 bits.
pub proof fn law_packet_checksum_closed_form(seq: u32, ack: u32, ptype: PType, padding: u8)
    ensures
        spec_packet_checksum(seq, ack, ptype, padding) == wrap16(
            halves_sum(seq) + halves_sum(ack) + ptype.spec_code() * 0x100 + padding,
        ),
{
    let s = header_prefix(seq, ack, ptype, padding);
    lemma_u32_be_words(seq);
    lemma_u32_be_words(ack);
    assert(s.len() == 10);
    assert(word_at(s, 0) == word_at(u32_be_bytes(seq), 0));
    assert(word_at(s, 1) == word_at(u32_be_bytes(seq), 1));
    assert(word_at(s, 2) == word_at(u32_be_bytes(ack), 0));
    assert(word_at(s, 3) == word_at(u32_be_bytes(ack), 1));
    assert(word_at(s, 4) == ptype.spec_code() * 0x100 + padding);
    reveal_with_fuel(words_sum, 6);
}

/// Reading back what `dump` wrote gives the packet's header fields, with an
/// empty payload.
pub proof fn law_parse_dump(p: PacketView)
    ensures
        spec_parse_packet(spec_dump(p)) == Ok::<PacketView, PacketError>(
            PacketView {
                seq: p.seq,
                ack: p.ack,
                ptype: p.ptype,
                padding: p.padding,
                checksum: p.checksum,
                data: Seq::empty(),
            },
        ),
{
    let q = PacketView {
        seq: p.seq,
        ack: p.ack,
        ptype: p.ptype,
        padding: p.padding,
        checksum: p.checksum,
        data: Seq::empty(),
    };
    law_parse_dump_with_payload(q);
    assert(spec_dump(q) + q.data =~= spec_dump(p));
}

/// Reading back the header that `dump` wrote, followed by the payload,
/// gives the packet again, when it is within the size limit.
pub proof fn law_parse_dump_with_payload(p: PacketView)
    requires
        HEADER_SIZE + p.data.len() <= MAX_PACKET_SIZE,
    ensures
        spec_parse_packet(spec_dump(p) + p.data) == Ok::<PacketView, PacketError>(p),
{
    let s = spec_dump(p) + p.data;
    lemma_be_u32_roundtrip(p.seq);
    lemma_be_u32_roundtrip(p.ack);
    lemma_be_u16_roundtrip(p.checksum);
    let b = u32_be_bytes(p.seq);
    let a = u32_be_bytes(p.ack);
    let c = u16_be_bytes(p.checksum);
    assert(s[0] == b[0] && s[1] == b[1] && s[2] == b[2] && s[3] == b[3]);
    assert(s[4] == a[0] && s[5] == a[1] && s[6] == a[2] && s[7] == a[3]);
    assert(s[8] == p.ptype.spec_code() && s[9] == p.padding);
    assert(s[10] == c[0] && s[11] == c[1]);
    assert(s.skip(HEADER_SIZE as int) =~= p.data);
}

/// Whatever `parse` accepts is the header that `dump` writes for the
/// parsed packet, followed by the parsed payload: parsing loses nothing.
pub proof fn law_dump_parse(s: Seq<u8>)
    ensures
        spec_parse_packet(s) matches Ok(p) ==> spec_dump(p) + p.data == s,
{
    if let Ok(p) = spec_parse_packet(s) {
        lemma_u32_bytes_roundtrip(s[0], s[1], s[2], s[3]);
        lemma_u32_bytes_roundtrip(s[4], s[5], s[6], s[7]);
        lemma_u16_bytes_roundtrip(s[10], s[11]);
        law_ptype_code_roundtrip(p.ptype, s[8]);
        assert(spec_dump(p) + p.data =~= s);
    }
}

} // verus!
