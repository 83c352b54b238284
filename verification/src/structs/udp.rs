use vstd::prelude::*;

verus! {

/// UDP header with its optional payload. `length` covers header and payload.
#[derive(Debug, Clone)]
pub struct UdpHeader {
    pub src_port: u16,
    pub dst_port: u16,
    pub length: u16,
    pub checksum: u16,
    pub payload: Option<Vec<u8>>,
}

} // verus!
