//! The data model: one value type per protocol layer, the packet that owns
//! them, and the parameters a packet is built from.

pub mod ethernet;
pub mod formats;
pub mod ip;
pub mod ipv4;
pub mod json;
pub mod l4_protocol;
pub mod network_packet;
pub mod packet_builder;
pub mod pcap;
pub mod tcp;
pub mod udp;
