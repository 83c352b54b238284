use vstd::prelude::*;

verus! {

/// The output formats a packet can be written in.
#[derive(Debug, Clone, Copy, PartialEq, Eq)]
pub enum FormatType {
    Pcap,
    Json,
}

} // verus!
