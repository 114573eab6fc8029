# reliable_udp

Wire format of a small reliable-UDP protocol, verified with Verus.

- `src/wire.rs`: big-endian integers and 16-bit word sums over bytes.
- `src/packet.rs`: `Header` (14 bytes, header checksum and full checksum).
- `src/reliable_udp.rs`: `Packet` (12-byte header and payload, one checksum),
  with round-trip laws between `parse` and `dump`.
- `src/errors.rs`, `src/errors/packet_parsing_errors.rs`: parsing errors.
- `src/manager.rs`: connection state.
- `app/lib.rs`: the errors as `std::error::Error` values (via `thiserror`).

Checksums are sums of 16-bit words in a `u16` with wrap-around.
