use vstd::prelude::*;

verus! {

/// An IPv4 address as its four octets, first octet first.
#[derive(Debug, Clone, Copy, PartialEq, Eq)]
pub struct Ipv4Addr {
    pub octets: [u8; 4],
}

} // verus!
