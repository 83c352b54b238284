use crate::structs::ethernet::EthernetHeader;
use crate::structs::ip::Ipv4Header;
use crate::structs::l4_protocol::L4Data;
use vstd::prelude::*;

verus! {

/// A complete packet: Ethernet around IPv4 around TCP or UDP.
#[derive(Debug, Clone)]
pub struct NetworkPacket {
    pub ethernet: EthernetHeader,
    pub ipv4: Ipv4Header,
    pub l4_data: L4Data,
}

} // verus!
