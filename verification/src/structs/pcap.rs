use vstd::prelude::*;

verus! {

/// Accumulates a capture file in memory.
pub struct PcapWriter {
    pub buffer: Vec<u8>,
}

/// Walks the records of a capture file held in memory; `position` is the
/// offset of the next unread byte.
pub struct PcapReader {
    pub data: Vec<u8>,
    pub position: usize,
}

} // verus!
