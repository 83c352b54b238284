use crate::structs::ethernet::EthernetHeader;
use vstd::prelude::*;

verus! {

/// Ethertype of IPv4.
pub const ETHERTYPE_IPV4: u16 = 0x0800;

/// Builds Ethernet headers that announce IPv4.
pub struct EthernetBuilder;

impl EthernetBuilder {
    pub fn new() -> (builder: Self) {
        Self
    }

    /// Builds the Ethernet header between the two MAC addresses.
    pub fn build_ethernet_header(&self, src_mac: [u8; 6], dst_mac: [u8; 6]) -> (header:
        EthernetHeader)
        ensures
            header.dst_mac == dst_mac,
            header.src_mac == src_mac,
            header.ethertype == ETHERTYPE_IPV4,
    {
        EthernetHeader { dst_mac, src_mac, ethertype: ETHERTYPE_IPV4 }
    }
}

} // verus!
