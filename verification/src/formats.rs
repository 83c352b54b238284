//! Output formats for packets: a capture file and a structured text.

pub mod format_factory;
pub mod json;
pub mod pcap;
