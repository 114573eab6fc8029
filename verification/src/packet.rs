//! Headers whose type byte follows a padding byte and that carry two
//! checksums: one over the header, one over header and payload.
use crate::errors::packet_parsing_errors::{TooBigPacket, TooSmallPacket, UknownPType};
use crate::errors::PacketError;
use crate::wire::{
    lemma_be_values, lemma_data_words_append_byte, lemma_data_words_append_word,
    read_u16_be, read_u32_be,
    add_be_words, be_u16, be_u32, data_words_sum, halves_sum, lemma_accumulate, lemma_halves,
    lemma_wrap16_add, wrap16,
};
use vstd::prelude::*;

verus! {

pub const HEADER_SIZE: usize = 14;

pub const MAX_PACKET_SIZE: usize = 65507;

/// The packet types, with wire codes 1 to 5 in the order listed.
#[derive(Clone, Copy, Debug, PartialEq, Eq, Structural)]
pub enum PType {
    Syn,
    SynAck,
    Ack,
    Snd,
    Fin,
}

impl PType {
    /// The wire code of the packet type.
    pub open spec fn spec_code(self) -> u8 {
        match self {
            PType::Syn => 1,
            PType::SynAck => 2,
            PType::Ack => 3,
            PType::Snd => 4,
            PType::Fin => 5,
        }
    }

    /// The packet type with wire code `b`, if any.
    pub open spec fn spec_from_code(b: u8) -> Option<PType> {
        if b == 1 {
            Some(PType::Syn)
        } else if b == 2 {
            Some(PType::SynAck)
        } else if b == 3 {
            Some(PType::Ack)
        } else if b == 4 {
            Some(PType::Snd)
        } else if b == 5 {
            Some(PType::Fin)
        } else {
            None
        }
    }

    pub fn code(self) -> (b: u8)
        ensures
            b == self.spec_code(),
    {
        match self {
            PType::Syn => 1,
            PType::SynAck => 2,
            PType::Ack => 3,
            PType::Snd => 4,
            PType::Fin => 5,
        }
    }

    pub fn from_code(b: u8) -> (t: Option<PType>)
        ensures
            t == PType::spec_from_code(b),
    {
        match b {
            1 => Some(PType::Syn),
            2 => Some(PType::SynAck),
            3 => Some(PType::Ack),
            4 => Some(PType::Snd),
            5 => Some(PType::Fin),
            _ => None,
        }
    }
}

/// Every packet type is found again from its code, and every code that
/// names a packet type is that type's code.
pub proof fn law_ptype_code_roundtrip(t: PType, b: u8)
    ensures
        PType::spec_from_code(t.spec_code()) == Some(t),
        PType::spec_from_code(b) matches Some(u) ==> u.spec_code() == b,
        PType::spec_from_code(b) is Some <==> 1 <= b <= 5,
{
}

/// A packet header. On the wire: `seq` (bytes 0..4) and `ack` (4..8), both
/// big-endian, one padding byte (8), the type code (9), then
/// `header_checksum` (10..12) and `checksum` (12..14), big-endian.
pub struct Header {
    pub seq: u32,
    pub ack: u32,
    pub ptype: PType,
    pub header_checksum: u16,
    pub checksum: u16,
}

/// Sum of the words that the header checksum covers: both halves of `seq`
/// and of `ack`, and the type code.
pub open spec fn header_words(seq: u32, ack: u32, ptype: PType) -> int {
    halves_sum(seq) + halves_sum(ack) + ptype.spec_code()
}

/// Sum of the big-endian words of a payload; no payload counts as zero.
pub open spec fn payload_words(data: Option<Seq<u8>>) -> int {
    match data {
        Some(d) => data_words_sum(d),
        None => 0,
    }
}

/// The header checksum: the header words summed in 16 bits with wrap-around.
pub open spec fn spec_header_checksum(seq: u32, ack: u32, ptype: PType) -> u16 {
    wrap16(header_words(seq, ack, ptype))
}

/// The full checksum: the header checksum, the header words and the
/// payload words, summed in 16 bits with wrap-around.
pub open spec fn spec_checksum(
    seq: u32,
    ack: u32,
    ptype: PType,
    header_checksum: u16,
    data: Option<Seq<u8>>,
) -> u16 {
    wrap16(header_checksum + header_words(seq, ack, ptype) + payload_words(data))
}

/// What parsing `s` as a header gives.
pub open spec fn spec_parse_header(s: Seq<u8>) -> Result<Header, PacketError> {
    if s.len() < HEADER_SIZE {
        Err(PacketError::TooSmallPacket(TooSmallPacket))
    } else if s.len() > MAX_PACKET_SIZE {
        Err(PacketError::TooBigPacket(TooBigPacket { size: s.len() as usize }))
    } else {
        match PType::spec_from_code(s[9]) {
            None => Err(PacketError::UknownPType(UknownPType { ptype: s[9] })),
            Some(ptype) => Ok(
                Header {
                    seq: be_u32(s[0], s[1], s[2], s[3]),
                    ack: be_u32(s[4], s[5], s[6], s[7]),
                    ptype,
                    header_checksum: be_u16(s[10], s[11]),
                    checksum: be_u16(s[12], s[13]),
                },
            ),
        }
    }
}

/// The payload as a sequence of bytes, if there is one.
pub open spec fn payload_view(data: Option<&[u8]>) -> Option<Seq<u8>> {
    match data {
        Some(d) => Some(d@),
        None => None,
    }
}

impl Header {
    /// Reads a header from the start of `data`. Bytes past the header are
    /// not read, but count toward the size limit. An unknown type code is
    /// reported with that code (byte 9) as its value.
    pub fn parse(data: &[u8]) -> (r: Result<Header, PacketError>)
        ensures
            r == spec_parse_header(data@),
    {
        if data.len() < HEADER_SIZE {
            return Err(PacketError::TooSmallPacket(TooSmallPacket));
        } else if data.len() > MAX_PACKET_SIZE {
            return Err(PacketError::TooBigPacket(TooBigPacket::new(data.len())));
        }
        let seq: u32 = read_u32_be(data, 0);
        let ack: u32 = read_u32_be(data, 4);
        let ptype: PType = match PType::from_code(data[9]) {
            Some(t) => t,
            None => return Err(PacketError::UknownPType(UknownPType::new(data[9]))),
        };
        let header_checksum: u16 = read_u16_be(data, 10);
        let checksum: u16 = read_u16_be(data, 12);
        Ok(Header { seq, ack, ptype, header_checksum, checksum })
    }

    /// The header checksum of a header with these fields.
    pub fn calculate_header_checksum(seq: u32, ack: u32, ptype: PType) -> (c: u16)
        ensures
            c == spec_header_checksum(seq, ack, ptype),
    {
        let mut checksum: u16 = 0;
        proof {
            lemma_halves(seq);
            lemma_halves(ack);
        }
        let ghost mut total: int = 0;
        proof {
            lemma_accumulate(checksum, total, (seq >> 16) as u16);
        }
        checksum = checksum.wrapping_add((seq >> 16) as u16);
        proof {
            total = total + seq / 0x1_0000;
            lemma_accumulate(checksum, total, seq as u16);
        }
        checksum = checksum.wrapping_add(seq as u16);
        proof {
            total = total + seq % 0x1_0000;
            lemma_accumulate(checksum, total, (ack >> 16) as u16);
        }
        checksum = checksum.wrapping_add((ack >> 16) as u16);
        proof {
            total = total + ack / 0x1_0000;
            lemma_accumulate(checksum, total, ack as u16);
        }
        checksum = checksum.wrapping_add(ack as u16);
        proof {
            total = total + ack % 0x1_0000;
        }
        let code = ptype.code() as u16;
        proof {
            lemma_accumulate(checksum, total, code);
        }
        checksum = checksum.wrapping_add(code);
        checksum
    }

    /// The checksum over a header with these fields, its header checksum
    /// and the payload `data`, if any.
    pub fn calculate_checksum(
        seq: u32,
        ack: u32,
        ptype: PType,
        header_checksum: u16,
        data: Option<&[u8]>,
    ) -> (c: u16)
        ensures
            c == spec_checksum(seq, ack, ptype, header_checksum, payload_view(data)),
    {
        let mut checksum: u16 = header_checksum;
        proof {
            lemma_halves(seq);
            lemma_halves(ack);
            vstd::arithmetic::div_mod::lemma_small_mod(header_checksum as nat, 0x1_0000);
        }
        let ghost mut total: int = header_checksum as int;
        proof {
            lemma_accumulate(checksum, total, (seq >> 16) as u16);
        }
        checksum = checksum.wrapping_add((seq >> 16) as u16);
        proof {
            total = total + seq / 0x1_0000;
            lemma_accumulate(checksum, total, seq as u16);
        }
        checksum = checksum.wrapping_add(seq as u16);
        proof {
            total = total + seq % 0x1_0000;
            lemma_accumulate(checksum, total, (ack >> 16) as u16);
        }
        checksum = checksum.wrapping_add((ack >> 16) as u16);
        proof {
            total = total + ack / 0x1_0000;
            lemma_accumulate(checksum, total, ack as u16);
        }
        checksum = checksum.wrapping_add(ack as u16);
        proof {
            total = total + ack % 0x1_0000;
        }
        let code = ptype.code() as u16;
        proof {
            lemma_accumulate(checksum, total, code);
        }
        checksum = checksum.wrapping_add(code);
        proof {
            total = total + code;
        }
        match data {
            Some(dt) => {
                let sum = add_be_words(checksum, dt);
                proof { lemma_wrap16_add(total, data_words_sum(dt@)); }
                sum
            },
            None => checksum,
        }
    }

    /// Whether the header checksum matches the other header fields.
    pub fn verify_header_checksum(&self) -> (ok: bool)
        ensures
            ok == (self.header_checksum == spec_header_checksum(self.seq, self.ack, self.ptype)),
    {
        let calculated_checksum = Header::calculate_header_checksum(self.seq, self.ack, self.ptype);
        self.header_checksum == calculated_checksum
    }
}

/// The full checksum is the header checksum field, plus the header checksum
/// of the header words, plus the payload words, reduced to 16 bits.
pub proof fn law_checksum_extends_header_checksum(
    seq: u32,
    ack: u32,
    ptype: PType,
    header_checksum: u16,
    data: Option<Seq<u8>>,
)
    ensures
        spec_checksum(seq, ack, ptype, header_checksum, data) == wrap16(
            header_checksum + spec_header_checksum(seq, ack, ptype) + payload_words(data),
        ),
{
    let h = header_words(seq, ack, ptype);
    let rest = header_checksum + payload_words(data);
    lemma_wrap16_add(h, rest);
    assert(wrap16(h) + rest == header_checksum + spec_header_checksum(seq, ack, ptype)
        + payload_words(data));
}

/// No payload and an empty payload give the same checksum.
pub proof fn law_checksum_empty_payload(seq: u32, ack: u32, ptype: PType, header_checksum: u16)
    ensures
        spec_checksum(seq, ack, ptype, header_checksum, None) == spec_checksum(
            seq,
            ack,
            ptype,
            header_checksum,
            Some(Seq::<u8>::empty()),
        ),
{
    assert(data_words_sum(Seq::<u8>::empty()) == 0);
}

/// Parsing reads the first fourteen bytes only: two inputs within the size
/// limits that agree on those bytes parse alike.
pub proof fn law_parse_header_reads_header_only(s1: Seq<u8>, s2: Seq<u8>)
    requires
        HEADER_SIZE <= s1.len() <= MAX_PACKET_SIZE,
        HEADER_SIZE <= s2.len() <= MAX_PACKET_SIZE,
        s1.take(HEADER_SIZE as int) == s2.take(HEADER_SIZE as int),
    ensures
        spec_parse_header(s1) == spec_parse_header(s2),
{
    assert forall|i: int| 0 <= i < HEADER_SIZE implies s1[i] == s2[i] by {
        assert(s1.take(HEADER_SIZE as int)[i] == s1[i]);
        assert(s2.take(HEADER_SIZE as int)[i] == s2[i]);
    }
}

/// Every input is answered: too short and too long inputs are refused with
/// their reasons; within the limits, the type byte (byte 9) decides. A code
/// from 1 to 5 gives Syn, SynAck, Ack, Snd, Fin in that order, and the
/// other fields are the big-endian values of their bytes; any other code is
/// refused with that code.
pub proof fn law_parse_header_outcomes(s: Seq<u8>)
    ensures
        s.len() < 14 ==> spec_parse_header(s) == Err::<Header, PacketError>(
            PacketError::TooSmallPacket(TooSmallPacket),
        ),
        s.len() > 65507 ==> spec_parse_header(s) == Err::<Header, PacketError>(
            PacketError::TooBigPacket(TooBigPacket { size: s.len() as usize }),
        ),
        14 <= s.len() <= 65507 && !(1 <= s[9] <= 5) ==> spec_parse_header(s) == Err::<
            Header,
            PacketError,
        >(PacketError::UknownPType(UknownPType { ptype: s[9] })),
        14 <= s.len() <= 65507 && 1 <= s[9] <= 5 ==> (spec_parse_header(s) matches Ok(h) && {
            &&& h.seq == s[0] * 0x100_0000 + s[1] * 0x1_0000 + s[2] * 0x100 + s[3]
            &&& h.ack == s[4] * 0x100_0000 + s[5] * 0x1_0000 + s[6] * 0x100 + s[7]
            &&& h.header_checksum == s[10] * 0x100 + s[11]
            &&& h.checksum == s[12] * 0x100 + s[13]
            &&& (s[9] == 1 ==> h.ptype == PType::Syn)
            &&& (s[9] == 2 ==> h.ptype == PType::SynAck)
            &&& (s[9] == 3 ==> h.ptype == PType::Ack)
            &&& (s[9] == 4 ==> h.ptype == PType::Snd)
            &&& (s[9] == 5 ==> h.ptype == PType::Fin)
        }),
{
    if 14 <= s.len() {
        lemma_be_values(s[0], s[1], s[2], s[3]);
        lemma_be_values(s[4], s[5], s[6], s[7]);
        lemma_be_values(s[10], s[11], s[12], s[13]);
        lemma_be_values(s[12], s[13], s[10], s[11]);
    }
}

/// The header checksum is the sum of the 16-bit halves of `seq` and of
/// `ack` and of the type's wire code (Syn 1, SynAck 2, Ack 3, Snd 4, Fin 5),
/// modulo 2^16.
pub proof fn law_header_checksum_value(seq: u32, ack: u32)
    ensures
        spec_header_checksum(seq, ack, PType::Syn) == (seq / 0x1_0000 + seq % 0x1_0000 + ack
            / 0x1_0000 + ack % 0x1_0000 + 1) % 0x1_0000,
        spec_header_checksum(seq, ack, PType::SynAck) == (seq / 0x1_0000 + seq % 0x1_0000 + ack
            / 0x1_0000 + ack % 0x1_0000 + 2) % 0x1_0000,
        spec_header_checksum(seq, ack, PType::Ack) == (seq / 0x1_0000 + seq % 0x1_0000 + ack
            / 0x1_0000 + ack % 0x1_0000 + 3) % 0x1_0000,
        spec_header_checksum(seq, ack, PType::Snd) == (seq / 0x1_0000 + seq % 0x1_0000 + ack
            / 0x1_0000 + ack % 0x1_0000 + 4) % 0x1_0000,
        spec_header_checksum(seq, ack, PType::Fin) == (seq / 0x1_0000 + seq % 0x1_0000 + ack
            / 0x1_0000 + ack % 0x1_0000 + 5) % 0x1_0000,
{
}

/// Without a payload, the full checksum is the header-checksum field plus
/// the header checksum of the fields, modulo 2^16.
pub proof fn law_checksum_without_payload(seq: u32, ack: u32, ptype: PType, header_checksum: u16)
    ensures
        spec_checksum(seq, ack, ptype, header_checksum, None) == (header_checksum
            + spec_header_checksum(seq, ack, ptype)) % 0x1_0000,
{
    law_checksum_extends_header_checksum(seq, ack, ptype, header_checksum, None);
}

/// Appending two bytes `a`, `b` to a payload of even length adds the word
/// `a * 256 + b` to the full checksum, modulo 2^16: every word of the whole
/// payload counts.
pub proof fn law_checksum_append_word(
    seq: u32,
    ack: u32,
    ptype: PType,
    header_checksum: u16,
    d: Seq<u8>,
    a: u8,
    b: u8,
)
    requires
        d.len() % 2 == 0,
    ensures
        spec_checksum(seq, ack, ptype, header_checksum, Some(d + seq![a, b])) == (spec_checksum(
            seq,
            ack,
            ptype,
            header_checksum,
            Some(d),
        ) + a * 0x100 + b) % 0x1_0000,
{
    lemma_data_words_append_word(d, a, b);
    let x = header_checksum + header_words(seq, ack, ptype) + data_words_sum(d);
    lemma_wrap16_add(x, a * 0x100 + b);
}

/// Appending one byte `a` to a payload of even length adds `a * 256` to the
/// full checksum, modulo 2^16: an odd last byte is the high byte of a word.
pub proof fn law_checksum_append_odd_byte(
    seq: u32,
    ack: u32,
    ptype: PType,
    header_checksum: u16,
    d: Seq<u8>,
    a: u8,
)
    requires
        d.len() % 2 == 0,
    ensures
        spec_checksum(seq, ack, ptype, header_checksum, Some(d + seq![a])) == (spec_checksum(
            seq,
            ack,
            ptype,
            header_checksum,
            Some(d),
        ) + a * 0x100) % 0x1_0000,
{
    lemma_data_words_append_byte(d, a);
    let x = header_checksum + header_words(seq, ack, ptype) + data_words_sum(d);
    lemma_wrap16_add(x, a * 0x100);
}

} // verus!
