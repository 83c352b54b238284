use vstd::prelude::*;

verus! {

/// Ethernet II header: destination, source, and the type of what follows.
#[derive(Debug, Clone, Copy)]
pub struct EthernetHeader {
    pub dst_mac: [u8; 6],
    pub src_mac: [u8; 6],
    pub ethertype: u16,
}

} // verus!
