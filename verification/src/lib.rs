//! Construction of synthetic Ethernet / IPv4 / TCP-or-UDP packets: header
//! builders, the Internet checksum, byte-exact serialisers, and writers and
//! readers for a capture-file format and a structured-text format.
//!
//! Every executable function carries a contract over sequences of bytes,
//! and is proved against it.

pub mod errors;
pub mod formats;
pub mod packets;
pub mod parsing;
pub mod structs;
pub mod utils;
