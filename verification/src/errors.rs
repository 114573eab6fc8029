//! Errors that parsing and building packets report.
pub mod packet_parsing_errors;

use crate::errors::packet_parsing_errors::{TooBigPacket, TooSmallPacket, UknownPType};
use vstd::prelude::*;

verus! {

/// Why bytes could not be taken as a packet, or a packet could not be built.
#[derive(Debug, Clone, Copy, PartialEq, Eq, Structural)]
pub enum PacketError {
    /// Fewer bytes than a header needs.
    TooSmallPacket(TooSmallPacket),
    /// The packet-type byte names no known packet type.
    UknownPType(UknownPType),
    /// More bytes than a packet may hold.
    TooBigPacket(TooBigPacket),
}

} // verus!
