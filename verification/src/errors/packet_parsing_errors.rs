//! The individual parsing errors, each with the values it reports.
use vstd::prelude::*;

verus! {

/// The input is shorter than a header.
#[derive(Debug, Clone, Copy, PartialEq, Eq, Structural)]
pub struct TooSmallPacket;

/// The packet-type byte holds no known packet type; `ptype` is that
/// rejected byte.
#[derive(Debug, Clone, Copy, PartialEq, Eq, Structural)]
pub struct UknownPType {
    pub ptype: u8,
}

impl UknownPType {
    pub fn new(ptype: u8) -> (e: UknownPType)
        ensures
            e.ptype == ptype,
    {
        UknownPType { ptype }
    }
}

/// A packet, or its payload, is larger than allowed; `size` is the size
/// that was found.
#[derive(Debug, Clone, Copy, PartialEq, Eq, Structural)]
pub struct TooBigPacket {
    pub size: usize,
}

impl TooBigPacket {
    pub fn new(size: usize) -> (e: TooBigPacket)
        ensures
            e.size == size,
    {
        TooBigPacket { size }
    }
}

} // verus!
