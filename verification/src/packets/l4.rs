//! Transport-layer serialisers.

pub mod tcp;
pub mod udp;
