//! Connection bookkeeping shared by the two ends of a connection.
use vstd::prelude::*;

verus! {

pub const MAX_RECEIVE_BUFFER_SIZE: usize = 523944;

pub const MAX_SEND_BUFFER_SIZE: usize = 523944;

/// A receive buffer of the maximal size.
pub type ReceiveBuffer = Box<[u8; MAX_RECEIVE_BUFFER_SIZE]>;

/// A send buffer; it has the size of a receive buffer.
pub type SendBuffer = Box<[u8; MAX_RECEIVE_BUFFER_SIZE]>;

pub type SocketID = usize;

/// The state one end keeps about a connection.
pub struct Connection {
    pub seq: u32,
    pub ack: u32,
    pub previous_seq: u32,
    pub is_open: bool,
    pub last_response: u64,
}

} // verus!
