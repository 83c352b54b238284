use vstd::prelude::*;

verus! {

/// IPv4 header. `ihl` counts 32-bit words; `flags` holds the three flag bits
/// and `fragment_offset` the thirteen offset bits that share one 16-bit
/// field on the wire.
#[derive(Debug, Clone)]
pub struct Ipv4Header {
    pub version: u8,
    pub ihl: u8,
    pub dscp: u8,
    pub total_length: u16,
    pub identification: u16,
    pub flags: u8,
    pub fragment_offset: u16,
    pub ttl: u8,
    pub protocol: u8,
    pub header_checksum: u16,
    pub src_addr: [u8; 4],
    pub dst_addr: [u8; 4],
    pub options: Option<Vec<u8>>,
}

} // verus!
