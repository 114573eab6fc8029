//! Wire format of a small reliable-UDP protocol: packet headers, their
//! parsing and serialisation, and the 16-bit checksums that protect them.
pub mod errors;
pub mod manager;
pub mod wire;
pub mod packet;
pub mod reliable_udp;
