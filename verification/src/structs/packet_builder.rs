use crate::structs::ipv4::Ipv4Addr;
use crate::structs::l4_protocol::L4Protocol;
use vstd::prelude::*;

verus! {

/// Normalised parameters from which one packet is built.
#[derive(Debug, Clone)]
pub struct PacketBuilder {
    pub src_ip: Ipv4Addr,
    pub dst_ip: Ipv4Addr,
    pub src_mac: [u8; 6],
    pub dst_mac: [u8; 6],
    pub src_port: u16,
    pub dst_port: u16,
    pub protocol: L4Protocol,
    pub ip_bitfield: u8,
    pub payload: Option<Vec<u8>>,
}

} // verus!
