//! Header builders, the assembler that composes the layers, and the
//! factory that drives them from a set of parameters.

pub mod ethernet_builder;
pub mod ipv4_builder;
pub mod packet_assembler;
pub mod packet_builder;
pub mod packet_factory;
pub mod packet_network;
pub mod tcp_builder;
pub mod udp_builder;
