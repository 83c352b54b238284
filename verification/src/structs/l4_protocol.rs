use crate::structs::tcp::TcpHeader;
use crate::structs::udp::UdpHeader;
use vstd::prelude::*;

verus! {

/// The transport layer of a packet: exactly one of TCP or UDP.
#[derive(Debug, Clone)]
pub enum L4Data {
    Tcp(TcpHeader),
    Udp(UdpHeader),
}

/// Which transport protocol a packet is to carry.
#[derive(Debug, Clone, Copy, PartialEq)]
pub enum L4Protocol {
    Tcp,
    Udp,
}

} // verus!
