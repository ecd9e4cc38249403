//! Framing of discrete messages over a byte-oriented, boundary-less,
//! order-preserving transport (for example a serial line).
//!
//! The wire format is a fixed 4-byte preamble, a 2-byte little-endian length
//! field holding `payload.len() + 10`, the raw payload (at most 1500 bytes),
//! and a 4-byte trailer. Decoding resynchronizes on an arbitrary byte stream
//! by scanning for the preamble one byte at a time.
//!
//! [`codec`] holds the frame encoder and the synchronization state machine;
//! [`exchange`] holds the decision logic of the two operating modes (server
//! echo, client ping with loss accounting). All I/O stays with the caller:
//! every function here works on plain values and byte buffers.

pub mod codec;
pub mod exchange;
