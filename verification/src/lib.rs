//! Verified core of an SSH (RFC 4253) server transport layer: the binary
//! packet codec, payload readers and builders, algorithm negotiation, MAC
//! verification, and the pure part of the connection state machine.
//!
//! I/O (sockets, reading lines and blocks from a stream) stays outside this
//! crate; every function here works on plain byte values and is verified.

pub mod errors;
pub mod types;
pub mod decoding;
pub mod encoding;
pub mod crypto;
pub mod negotiation;
pub mod ident;
pub mod session;
pub mod kex;
pub mod channel;
